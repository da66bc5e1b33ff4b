use fnsql::compile::{compile, CompileError};
use fnsql::parse::{parse_queries, ParseError, ParseErrorKind};
use fnsql::resolve::ResolveError;
use fnsql::generate::generate;

fn out(text: &str) -> String {
    compile(text).unwrap().into_iter().collect()
}

const PG_UNIT: &str = r#"
    #[postgres, test]
    create_table_pet() {
        "CREATE TABLE pet (id INTEGER PRIMARY KEY, name TEXT NOT NULL, data BYTEA)"
    }

    #[postgres, named, test(with=[create_table_pet])]
    insert_new_pet(id: i32, name: str, data: Option<Vec<u8>>) {
        "INSERT INTO pet (id, name, data) VALUES (:id, :name, :data)"
    }

    #[postgres, test(with=[create_table_pet])]
    get_pet_count(pet_id: i32) -> [(i64)] {
        "SELECT count(*) FROM pet WHERE id = $1"
    }
"#;

#[test]
fn named_query_is_rewritten_in_every_operation() {
    let text = out(PG_UNIT);
    let lit = "\"INSERT INTO pet (id, name, data) VALUES ($1, $2, $3)\"";
    assert_eq!(text.matches(lit).count(), 2 * 3);
    assert!(!text.contains(":name"));
}

#[test]
fn network_operations_are_generated() {
    let text = out(PG_UNIT);
    assert!(text.contains("pub struct Statement_get_pet_count(pub postgres::Statement);\n"));
    assert!(text.contains("pub trait Client_get_pet_count {\n"));
    assert!(text.contains(
        "    fn queue_one_get_pet_count(&mut self, pet_id: &i32) -> Result<(i64), postgres::Error>;\n"
    ));
    assert!(text.contains(
        "    fn queue_opt_prepared_get_pet_count(&mut self, stmt: &Statement_get_pet_count, pet_id: &i32) -> Result<Option<(i64)>, postgres::Error>;\n"
    ));
    assert!(text.contains(
        "        convert_row_get_pet_count(self.query_one(\"SELECT count(*) FROM pet WHERE id = $1\", &[&pet_id as &(dyn postgres::types::ToSql + Sync)])?)\n"
    ));
    assert!(text.contains("        self.query_opt(&stmt.0, &[&pet_id as &(dyn postgres::types::ToSql + Sync)])?.map(convert_row_get_pet_count).transpose()\n"));
    assert!(text.contains(
        "pub fn convert_row_get_pet_count(row: postgres::Row) -> Result<(i64), postgres::Error> {\n    Ok((row.try_get(0)?))\n}\n"
    ));
    assert!(text.contains("impl Client_get_pet_count for postgres::Client {\n"));
    assert!(text.contains("impl<'a> Client_get_pet_count for postgres::Transaction<'a> {\n"));
    assert!(text.contains("cache.prepare(\"SELECT count(*) FROM pet WHERE id = $1\", |q, _| self.prepare(q)).map(Statement_get_pet_count)"));
}

#[test]
fn exactly_one_and_optional_use_the_driver_contracts() {
    let text = out(PG_UNIT);
    assert_eq!(text.matches("self.query_one(").count(), 2 * 2);
    assert_eq!(text.matches("self.query_opt(").count(), 2 * 2);
}

#[test]
fn no_output_query_gets_row_count_operations_only() {
    let text = out(PG_UNIT);
    assert!(!text.contains("queue_create_table_pet"));
    assert!(!text.contains("convert_row_create_table_pet"));
    assert!(!text.contains("queue_insert_new_pet"));
    assert!(text.contains("    fn prepare_create_table_pet(&mut self) -> Result<Statement_create_table_pet, postgres::Error>;\n"));
    assert!(text.contains("    fn execute_prepared_create_table_pet(&mut self, stmt: &Statement_create_table_pet) -> Result<u64, postgres::Error>;\n"));
    assert!(text.contains("self.execute(\"CREATE TABLE pet (id INTEGER PRIMARY KEY, name TEXT NOT NULL, data BYTEA)\", &[])"));
    assert!(text.contains("fn queue_get_pet_count(&mut self, pet_id: &i32) -> Result<Vec<(i64)>, postgres::Error>;"));
}

#[test]
fn embedded_no_output_query_gets_execute_only() {
    let text = out(SQLITE_UNIT);
    assert!(!text.contains("query_row_create_table_pet"));
    assert!(!text.contains("MappedRows_create_table_pet"));
    assert!(!text.contains("Rows_update_data"));
    assert!(text.contains("impl<'a> Statement_update_data<'a> {\n    pub fn execute(&mut self, name: &str, data: &[u8]) -> rusqlite::Result<usize> {\n"));
    assert!(text.contains("impl<'a> Statement_get_pet_id_data<'a> {\n    pub fn query_map<F, T>("));
    assert!(text.contains("pub struct MappedRows_get_pet_id_data<'stmt, F> {"));
}

#[test]
fn setup_routine_visits_dependencies_first() {
    let text = out(PG_UNIT);
    let setup = "fn testsetup_insert_new_pet(\n    uns: &mut arbitrary::Unstructured,\n    deps: &mut std::collections::HashSet<&'static str>,\n    conn: &mut postgres::Client,\n) -> Result<(), postgres::Error> {\n    if !deps.insert(\"insert_new_pet\") {\n        return Ok(());\n    }\n    testsetup_create_table_pet(uns, deps, conn)?;\n    let i_0: i32 = arbitrary::Arbitrary::arbitrary(uns).unwrap();\n    let i_1: String = arbitrary::Arbitrary::arbitrary(uns).unwrap();\n    let i_2: Option<Vec<u8>> = arbitrary::Arbitrary::arbitrary(uns).unwrap();\n    let r = conn.execute_insert_new_pet(&i_0, &i_1, &i_2);\n    match r {\n        Ok(_) => {}\n        Err(err) => {\n";
    assert!(text.contains(setup));
    assert!(text.contains("#[test]\nfn auto_insert_new_pet() -> Result<(), postgres::Error> {\n"));
    assert!(text.contains("conn.execute(\"SET search_path TO pg_temp\", &[]).unwrap();\n"));
    assert!(!text.contains("ExecuteReturnedResults"));
}

const SQLITE_UNIT: &str = r#"
    #[rusqlite, test]
    create_table_pet() { "CREATE TABLE pet (id INTEGER PRIMARY KEY, name TEXT NOT NULL, data BLOB)" }

    #[rusqlite, test(with=[create_table_pet])]
    get_pet_id_data(name: Option<String>) -> [(i32, Option<Vec<u8>>)] {
        "SELECT id, data FROM pet WHERE pet.name = :name"
    }

    #[rusqlite, test(with=[create_table_pet])]
    update_data(name: str, data: [u8]) { "UPDATE pet SET data = :data WHERE name = :name" }
"#;

#[test]
fn embedded_operations_are_generated() {
    let text = out(SQLITE_UNIT);
    assert!(text.contains("pub trait Connection_get_pet_id_data {\n"));
    assert!(text.contains("    fn prepare_get_pet_id_data(&self) -> rusqlite::Result<Statement_get_pet_id_data<'_>>;\n"));
    assert!(text.contains("    fn prepare_cached_get_pet_id_data(&self) -> rusqlite::Result<CachedStatement_get_pet_id_data<'_>>;\n"));
    assert!(text.contains("self.execute(\"SELECT id, data FROM pet WHERE pet.name = :name\", &[(\":name\", &name as &dyn rusqlite::ToSql)])"));
    assert!(text.contains("    fn query_row_get_pet_id_data<F, T>(&self, name: &Option<String>, f: F) -> rusqlite::Result<T>\n    where\n        F: FnMut(i32, Option<Vec<u8>>) -> T;\n"));
    assert!(text.contains("stmt.query_row(name, f)"));
    assert!(text.contains("Ok(map(row.get(0)?, row.get(1)?))"));
    assert!(text.contains("type Item = rusqlite::Result<(i32, Option<Vec<u8>>)>;"));
    assert!(text.contains("pub struct Statement_get_pet_id_data<'a>(pub rusqlite::Statement<'a>);"));
    assert!(text.contains("pub struct CachedStatement_get_pet_id_data<'a>(pub rusqlite::CachedStatement<'a>);"));
    assert!(text.contains("None => Err(rusqlite::Error::QueryReturnedNoRows),"));
    assert!(text.contains("self.execute(\"CREATE TABLE pet (id INTEGER PRIMARY KEY, name TEXT NOT NULL, data BLOB)\", [])"));
}

#[test]
fn embedded_setup_tolerates_returned_rows() {
    let text = out(SQLITE_UNIT);
    assert_eq!(text.matches("        Err(rusqlite::Error::ExecuteReturnedResults) => {}\n").count(), 3);
    assert!(text.contains("    let i_0: String = arbitrary::Arbitrary::arbitrary(uns).unwrap();\n    let i_1: Vec<u8> = arbitrary::Arbitrary::arbitrary(uns).unwrap();\n"));
    assert!(text.contains("    let conn = rusqlite::Connection::open_in_memory()?;\n"));
    assert!(text.contains("testsetup_update_data(&mut unstructured, &mut deps, &conn)?;"));
}

#[test]
fn query_without_test_has_no_test_code() {
    let text = out("#[rusqlite] q() { \"SELECT 1\" }");
    assert!(!text.contains("testsetup_"));
    assert!(!text.contains("#[test]"));
}

#[test]
fn quotes_in_sql_are_escaped() {
    let text = out(r#"#[rusqlite] q() { "SELECT '\\' AS \"x\"" }"#);
    assert!(text.contains(r#"self.prepare("SELECT '\\' AS \"x\"")"#));
}

#[test]
fn parse_error_gives_no_output() {
    assert_eq!(
        compile("#[rusqlite] q() { \"x\" } #[sqlite] r() { \"y\" }"),
        Err(CompileError::Parse(ParseError { at: 26, kind: ParseErrorKind::UnknownAttribute }))
    );
}

#[test]
fn unresolved_dependency_gives_no_output() {
    assert_eq!(
        compile("#[rusqlite, test(with=[missing])] q() { \"x\" }"),
        Err(CompileError::Resolve(ResolveError { query: 0, dependency: 0 }))
    );
}

#[test]
fn output_is_the_layers_in_order() {
    let qs = parse_queries(SQLITE_UNIT).unwrap();
    let all: String = generate(&qs).unwrap().into_iter().collect();
    let first = all.find("Connection_create_table_pet").unwrap();
    let second = all.find("Connection_get_pet_id_data").unwrap();
    let third = all.find("Connection_update_data").unwrap();
    assert!(first < second && second < third);
}
