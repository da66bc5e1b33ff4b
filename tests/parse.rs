use fnsql::model::Kind;
use fnsql::parse::{parse_queries, ParseError, ParseErrorKind};

fn s(v: &[char]) -> String {
    v.iter().collect()
}

const SQLITE_UNIT: &str = r#"
    #[rusqlite, test]
    create_table_pet() {
        "CREATE TABLE pet (
              id      INTEGER PRIMARY KEY,
              name    TEXT NOT NULL,
              data    BLOB
        )"
    }

    #[rusqlite, test(with=[create_table_pet])]
    get_pet_id_data(name: Option<String>) -> [(i32, Option<Vec<u8>>)] {
        "SELECT id, data FROM pet WHERE pet.name = :name"
    }

    #[rusqlite, test(with=[create_table_pet])]
    insert_new_pet_str(name: str, data: Option<Vec<u8>>) {
        "INSERT INTO pet (name, data) VALUES (:name, :data)"
    }
"#;

#[test]
fn parses_embedded_unit() {
    let qs = parse_queries(SQLITE_UNIT).unwrap();
    assert_eq!(qs.len(), 3);
    assert_eq!(s(&qs[0].name), "create_table_pet");
    assert_eq!(qs[0].kind, Kind::Rusqlite);
    assert!(qs[0].params.is_empty());
    assert!(qs[0].outputs.is_empty());
    assert!(s(&qs[0].sql).starts_with("CREATE TABLE pet (\n"));
    assert_eq!(qs[0].test.as_ref().map(|t| t.len()), Some(0));

    assert_eq!(s(&qs[1].name), "get_pet_id_data");
    assert_eq!(qs[1].params.len(), 1);
    assert_eq!(s(&qs[1].params[0].name), "name");
    assert_eq!(s(&qs[1].params[0].ty), "Option<String>");
    assert_eq!(qs[1].outputs.len(), 2);
    assert_eq!(s(&qs[1].outputs[0].ty), "i32");
    assert_eq!(s(&qs[1].outputs[1].ty), "Option<Vec<u8>>");
    assert_eq!(s(&qs[1].sql), "SELECT id, data FROM pet WHERE pet.name = :name");
    let deps: Vec<String> = qs[1].test.as_ref().unwrap().iter().map(|d| s(d)).collect();
    assert_eq!(deps, vec!["create_table_pet".to_string()]);

    assert_eq!(s(&qs[2].params[0].ty), "str");
    assert!(!qs[2].named);
}

#[test]
fn parses_network_unit_with_named_and_raw_string() {
    let unit = r####"
        #[postgres, named, test(with=[a, b], with=[c])]
        insert_new_pet(id: i32, name: String, data: Option<Vec<u8>>,) {
            "INSERT INTO pet (id, name, data) VALUES (:id, :name, :data)"
        }

        #[postgres]
        get_pet_count(pet_id: i32) -> [(i32)] {r#"
             SELECT count(*) FROM pet WHERE id = $1 AND name <> "x"
        "#}
    "####;
    let qs = parse_queries(unit).unwrap();
    assert_eq!(qs[0].kind, Kind::PostgreSQL);
    assert!(qs[0].named);
    assert_eq!(qs[0].params.len(), 3);
    let deps: Vec<String> = qs[0].test.as_ref().unwrap().iter().map(|d| s(d)).collect();
    assert_eq!(deps, vec!["a", "b", "c"]);
    assert!(qs[1].test.is_none());
    assert_eq!(s(&qs[1].sql), "\n             SELECT count(*) FROM pet WHERE id = $1 AND name <> \"x\"\n        ");
}

#[test]
fn escapes_in_quoted_string() {
    let qs = parse_queries(r#"#[rusqlite] q() { "a\"b\\c\nd" }"#).unwrap();
    assert_eq!(s(&qs[0].sql), "a\"b\\c\nd");
}

#[test]
fn nested_generic_types() {
    let qs = parse_queries("#[rusqlite] q(a: HashMap<String, Vec<(i32, u8)>>, b: [u8]) { \"x\" }").unwrap();
    assert_eq!(s(&qs[0].params[0].ty), "HashMap<String, Vec<(i32, u8)>>");
    assert_eq!(s(&qs[0].params[1].ty), "[u8]");
}

#[test]
fn empty_unit() {
    assert_eq!(parse_queries("  \n ").unwrap().len(), 0);
}

#[test]
fn missing_kind_is_an_error() {
    assert_eq!(
        parse_queries("#[test] q() { \"x\" }").err(),
        Some(ParseError { at: 8, kind: ParseErrorKind::MissingKind })
    );
    assert_eq!(parse_queries("q() { \"x\" }").err(), Some(ParseError { at: 0, kind: ParseErrorKind::MissingKind }));
}

#[test]
fn duplicate_kind_is_an_error() {
    assert_eq!(
        parse_queries("#[rusqlite, postgres] q() { \"x\" }").err(),
        Some(ParseError { at: 12, kind: ParseErrorKind::DuplicateKind })
    );
}

#[test]
fn unknown_attribute_is_an_error() {
    assert_eq!(
        parse_queries("#[rusqlite, fast] q() { \"x\" }").err(),
        Some(ParseError { at: 12, kind: ParseErrorKind::UnknownAttribute })
    );
}

#[test]
fn unknown_test_attribute_is_an_error() {
    assert_eq!(
        parse_queries("#[rusqlite, test(without=[a])] q() { \"x\" }").err(),
        Some(ParseError { at: 17, kind: ParseErrorKind::UnknownTestAttribute })
    );
}

#[test]
fn malformed_parameter_list_is_an_error() {
    assert_eq!(
        parse_queries("#[rusqlite] q(a i32) { \"x\" }").err(),
        Some(ParseError { at: 16, kind: ParseErrorKind::Expected(':') })
    );
    assert_eq!(
        parse_queries("#[rusqlite] q(a: ) { \"x\" }").err(),
        Some(ParseError { at: 17, kind: ParseErrorKind::ExpectedType })
    );
}

#[test]
fn malformed_output_list_is_an_error() {
    assert_eq!(
        parse_queries("#[rusqlite] q() -> (i32) { \"x\" }").err(),
        Some(ParseError { at: 19, kind: ParseErrorKind::Expected('[') })
    );
}

#[test]
fn missing_string_is_an_error() {
    assert_eq!(
        parse_queries("#[rusqlite] q() { x }").err(),
        Some(ParseError { at: 18, kind: ParseErrorKind::ExpectedString })
    );
}

#[test]
fn unterminated_string_is_an_error() {
    assert_eq!(
        parse_queries("#[rusqlite] q() { \"x }").err(),
        Some(ParseError { at: 22, kind: ParseErrorKind::UnterminatedString })
    );
}

#[test]
fn bad_escape_is_an_error() {
    assert_eq!(
        parse_queries("#[rusqlite] q() { \"a\\qb\" }").err(),
        Some(ParseError { at: 20, kind: ParseErrorKind::BadEscape })
    );
}

#[test]
fn duplicate_parameter_is_an_error() {
    assert_eq!(
        parse_queries("#[rusqlite] q(a: i32, a: i32) { \"x\" }").err(),
        Some(ParseError { at: 12, kind: ParseErrorKind::DuplicateParam })
    );
}

#[test]
fn duplicate_query_is_an_error() {
    assert_eq!(
        parse_queries("#[rusqlite] q() { \"x\" }\n#[rusqlite] q() { \"y\" }").err(),
        Some(ParseError { at: 24, kind: ParseErrorKind::DuplicateQuery })
    );
}

#[test]
fn missing_name_is_an_error() {
    assert_eq!(
        parse_queries("#[rusqlite] () { \"x\" }").err(),
        Some(ParseError { at: 12, kind: ParseErrorKind::ExpectedIdent })
    );
}

#[test]
fn byte_and_unicode_escapes() {
    let qs = parse_queries(r#"#[postgres]q(){"\x41\x7f-\u{e9}\u{1F600}\u{1_0000}"}"#).unwrap();
    assert_eq!(s(&qs[0].sql), "A\u{7f}-\u{e9}\u{1F600}\u{10000}");
}

#[test]
fn line_continuation_skips_leading_white_space() {
    let qs = parse_queries("#[postgres] q() { \"SELECT a \\\n        FROM t\" }").unwrap();
    assert_eq!(s(&qs[0].sql), "SELECT a FROM t");
}

#[test]
fn bad_byte_escape_is_an_error() {
    assert_eq!(
        parse_queries(r#"#[rusqlite] q() { "\x80" }"#).err(),
        Some(ParseError { at: 19, kind: ParseErrorKind::BadEscape })
    );
    assert_eq!(
        parse_queries(r#"#[rusqlite] q() { "\x4" }"#).err(),
        Some(ParseError { at: 19, kind: ParseErrorKind::BadEscape })
    );
}

#[test]
fn bad_unicode_escape_is_an_error() {
    for text in [
        r#"#[rusqlite] q() { "\u{D800}" }"#,
        r#"#[rusqlite] q() { "\u{110000}" }"#,
        r#"#[rusqlite] q() { "\u{1234567}" }"#,
        r#"#[rusqlite] q() { "\u{}" }"#,
        r#"#[rusqlite] q() { "\u{_1}" }"#,
        r#"#[rusqlite] q() { "\u41" }"#,
    ] {
        assert_eq!(parse_queries(text).err(), Some(ParseError { at: 19, kind: ParseErrorKind::BadEscape }), "{}", text);
    }
}

#[test]
fn comments_are_white_space() {
    let unit = "// the pets\n#[rusqlite, /* backend */ test] /* a /* nested */ comment */\nq(a: i32 /* id */, b: Option<String> // name\n) -> [(i32 /* n */)] // rows\n{ \"SELECT 1\" } // end";
    let qs = parse_queries(unit).unwrap();
    assert_eq!(qs.len(), 1);
    assert_eq!(s(&qs[0].params[0].ty), "i32");
    assert_eq!(s(&qs[0].params[1].ty), "Option<String>");
    assert_eq!(s(&qs[0].outputs[0].ty), "i32");
    assert_eq!(s(&qs[0].sql), "SELECT 1");
}

#[test]
fn comment_inside_type_is_kept() {
    let qs = parse_queries("#[rusqlite] q(a: Option</* id */ i32>) { \"x\" }").unwrap();
    assert_eq!(s(&qs[0].params[0].ty), "Option</* id */ i32>");
}

#[test]
fn unicode_identifiers() {
    let qs = parse_queries("#[rusqlite] größe(wert_ü: i32) { \"x\" }").unwrap();
    assert_eq!(s(&qs[0].name), "größe");
    assert_eq!(s(&qs[0].params[0].name), "wert_ü");
    assert_eq!(
        parse_queries("#[rusqlite] ∑() { \"x\" }").err(),
        Some(ParseError { at: 12, kind: ParseErrorKind::ExpectedIdent })
    );
}
