use fnsql::parse::parse_queries;

// Runs the SQL text of a declared query against an embedded store holding
// one pet with id 5.
fn count_for(pet_id: i64) -> i64 {
    let qs = parse_queries(
        "#[postgres] get_pet_count(pet_id: i64) -> [(i64)] { \"SELECT count(*) FROM pet WHERE id = $1\" }",
    )
    .unwrap();
    let sql: String = qs[0].sql.iter().collect();
    let conn = rusqlite::Connection::open_in_memory().unwrap();
    conn.execute("CREATE TABLE pet (id INTEGER PRIMARY KEY, name TEXT)", []).unwrap();
    conn.execute("INSERT INTO pet (id, name) VALUES (5, 'Max')", []).unwrap();
    let mut stmt = conn.prepare(&sql).unwrap();
    let rows: Vec<i64> = stmt
        .query_map([pet_id], |row| row.get(0))
        .unwrap()
        .map(|r| r.unwrap())
        .collect();
    assert_eq!(rows.len(), 1);
    rows[0]
}

#[test]
fn pet_count_for_present_id() {
    assert_eq!(count_for(5), 1);
}

#[test]
fn pet_count_for_absent_id() {
    assert_eq!(count_for(99), 0);
}
