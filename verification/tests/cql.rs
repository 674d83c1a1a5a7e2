use stryke_scylla::cql::{
    escape_string, format_in_list, format_value, quote_identifier, quote_literal, valid_identifier,
};
use stryke_scylla::json::{Json, JsonNumber, JsonObject};

fn json(text: &str) -> Json {
    Json::parse(text.as_bytes()).unwrap()
}

#[test]
fn escape_doubles_single_quote() {
    assert_eq!(escape_string("a'b"), "a''b");
    assert_eq!(escape_string("O'Brien"), "O''Brien");
    assert_eq!(escape_string("plain"), "plain");
}

#[test]
fn quote_identifier_double_quotes() {
    assert_eq!(quote_identifier("Col"), "\"Col\"");
    assert_eq!(quote_identifier("we\"ird"), "\"we\"\"ird\"");
}

#[test]
fn quote_literal_wraps_and_escapes() {
    assert_eq!(quote_literal("O'Brien"), "'O''Brien'");
    assert_eq!(quote_literal("plain"), "'plain'");
}

#[test]
fn format_value_by_type() {
    assert_eq!(format_value(&json("7")), "7");
    assert_eq!(format_value(&json("true")), "true");
    assert_eq!(format_value(&Json::Null), "NULL");
    assert_eq!(format_value(&json("\"a'b\"")), "'a''b'");
    assert_eq!(format_value(&json("[1, \"x\"]")), "[1, 'x']");
}

#[test]
fn format_in_list_and_empty_sentinel() {
    assert_eq!(format_in_list(&[json("1"), json("\"a\"")]), "(1, 'a')");
    assert_eq!(format_in_list(&[]), "(NULL)");
}

#[test]
fn valid_identifier_rules() {
    assert!(valid_identifier("col_1"));
    assert!(!valid_identifier("1col"));
    assert!(!valid_identifier("has space"));
    assert!(!valid_identifier(""));
}

#[test]
fn escaping_edge_cases() {
    assert_eq!(escape_string(""), "");
    assert_eq!(escape_string("''"), "''''");
    assert_eq!(escape_string("\""), "\"");
    assert_eq!(escape_string("é'ß"), "é''ß");
    assert_eq!(quote_literal("'"), "''''");
    assert_eq!(quote_identifier("it's"), "\"it's\"");
}

/// Reads a quoted text from its opening quote on: its content, and what follows.
fn read_back(text: &str, quote: char) -> (String, String) {
    let chars: Vec<char> = text.chars().collect();
    assert_eq!(chars[0], quote);
    let mut content = String::new();
    let mut at = 1;
    loop {
        if chars[at] != quote {
            content.push(chars[at]);
            at += 1;
        } else if at + 1 < chars.len() && chars[at + 1] == quote {
            content.push(quote);
            at += 2;
        } else {
            return (content, chars[at + 1..].iter().collect());
        }
    }
}

#[test]
fn escaped_text_reads_back() {
    for s in ["", "'", "''", "a'b", "x' OR '1'='1", "'; DROP TABLE t; --", "\""] {
        let statement = format!("{} AND y = 1", quote_literal(s));
        assert_eq!(read_back(&statement, '\''), (s.to_string(), " AND y = 1".to_string()));
        assert_eq!(read_back(&quote_identifier(s), '"'), (s.to_string(), String::new()));
    }
}

#[test]
fn escaping_keeps_texts_apart() {
    assert_ne!(escape_string("a'"), escape_string("a''"));
    assert_ne!(escape_string("'a"), escape_string("a'"));
}

#[test]
fn escaping_adds_one_character_per_quote() {
    assert_eq!(escape_string("a'b'c").len(), 7);
    assert_eq!(escape_string("abc").len(), 3);
}

#[test]
fn escaping_goes_piece_by_piece() {
    for (a, b) in [("", "'"), ("a'", "'b"), ("''", "x'")] {
        let whole = format!("{}{}", a, b);
        assert_eq!(escape_string(&whole), format!("{}{}", escape_string(a), escape_string(b)));
    }
}

#[test]
fn quotes_stand_in_pairs() {
    for s in ["'", "a'b''c'''", "no quote"] {
        for run in escape_string(s).split(|c| c != '\'') {
            assert_eq!(run.len() % 2, 0);
        }
    }
}

#[test]
fn valid_identifiers_need_no_escape() {
    for s in ["a", "Z9", "col_1", "aB_cD"] {
        assert!(valid_identifier(s));
        assert_eq!(escape_string(s), s);
        assert_eq!(quote_identifier(s), format!("\"{}\"", s));
    }
    for s in ["_a", "a-b", "é", "aé", "a'", "a\"", " a"] {
        assert!(!valid_identifier(s));
    }
}

#[test]
fn numbers_are_formatted_as_they_are() {
    assert_eq!(format_value(&json("0")), "0");
    assert_eq!(format_value(&json("-12")), "-12");
    assert_eq!(format_value(&json("18446744073709551615")), "18446744073709551615");
    assert_eq!(format_value(&json("-9223372036854775808")), "-9223372036854775808");
    assert_eq!(format_value(&json("1.5")), "1.5");
    assert_eq!(format_value(&json("1e3")), "1000.0");
    assert_eq!(format_value(&Json::Number(JsonNumber::NegInt(5))), "5");
}

#[test]
fn booleans_and_nested_lists() {
    assert_eq!(format_value(&json("false")), "false");
    assert_eq!(format_value(&json("[]")), "[]");
    assert_eq!(format_value(&json("[null, [true, \"it's\"], -1]")), "[NULL, [true, 'it''s'], -1]");
}

#[test]
fn objects_are_the_literal_of_their_text() {
    assert_eq!(format_value(&json("{\"b\": 1, \"a\": \"x'y\"}")), "'{\"b\":1,\"a\":\"x''y\"}'");
    assert_eq!(format_value(&Json::Object(JsonObject::new())), "'{}'");
    assert_eq!(
        format_value(&json("[{\"k\": [1.25, null, \"\\u0001\"]}]")),
        "['{\"k\":[1.25,null,\"\\u0001\"]}']"
    );
}

#[test]
fn lists_hold_the_same_literals() {
    let items = [json("1"), json("\"a\""), json("null")];
    let list = format_value(&json("[1, \"a\", null]"));
    let in_list = format_in_list(&items);
    assert_eq!(list, "[1, 'a', NULL]");
    assert_eq!(in_list, "(1, 'a', NULL)");
    assert_eq!(format_in_list(&items[..1]), "(1)");
}
