use fnsql::rewrite::rewrite_placeholders;

fn chars(s: &str) -> Vec<char> {
    s.chars().collect()
}

fn rewrite(sql: &str, names: &[&str]) -> String {
    let names: Vec<Vec<char>> = names.iter().map(|n| chars(n)).collect();
    rewrite_placeholders(&chars(sql), &names).into_iter().collect()
}

#[test]
fn named_values_become_positional() {
    assert_eq!(
        rewrite("INSERT INTO pet (id, name, data) VALUES (:id, :name, :data)", &["id", "name", "data"]),
        "INSERT INTO pet (id, name, data) VALUES ($1, $2, $3)"
    );
}

#[test]
fn repeated_name_keeps_its_position() {
    assert_eq!(
        rewrite("SELECT :b, :a, :b WHERE x = :b", &["a", "b"]),
        "SELECT $2, $1, $2 WHERE x = $2"
    );
}

#[test]
fn unknown_name_is_kept() {
    assert_eq!(rewrite("SELECT :foo, :id", &["id"]), "SELECT :foo, $1");
}

#[test]
fn unknown_name_before_second_colon_is_kept() {
    assert_eq!(rewrite("SELECT :foo::int, :id::text", &["id"]), "SELECT :foo::int, $1::text");
}

#[test]
fn cast_operator_survives() {
    assert_eq!(rewrite("SELECT x::int FROM t", &["x"]), "SELECT x::int FROM t");
}

#[test]
fn name_at_end_of_text() {
    assert_eq!(rewrite("WHERE id = :id", &["id"]), "WHERE id = $1");
}

#[test]
fn adjacent_placeholders() {
    assert_eq!(rewrite(":a:b", &["a", "b"]), "$1$2");
}

#[test]
fn colon_before_digit_is_not_a_placeholder() {
    assert_eq!(rewrite("'10:30' :1", &["a"]), "'10:30' :1");
}

#[test]
fn longer_name_is_not_a_prefix_match() {
    assert_eq!(rewrite(":idx :id", &["id"]), ":idx $1");
}

#[test]
fn tenth_parameter_gets_two_digits() {
    let names = ["a", "b", "c", "d", "e", "f", "g", "h", "i", "j"];
    assert_eq!(rewrite("VALUES (:j, :a)", &names), "VALUES ($10, $1)");
}

#[test]
fn empty_text() {
    assert_eq!(rewrite("", &["a"]), "");
}
