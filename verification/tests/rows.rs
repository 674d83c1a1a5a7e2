use scylla::value::{Counter, CqlValue};
use stryke_scylla::answers::{answer_from, rows_of};
use stryke_scylla::commands::Answer;
use stryke_scylla::json::Json;
use stryke_scylla::reply::Failure;
use stryke_scylla::rows::{cql_to_json, outcome_to_json, row_to_json, Cql, ResultSet};

fn json(text: &str) -> Json {
    Json::parse(text.as_bytes()).unwrap()
}

fn text(v: &Json) -> String {
    v.display()
}

fn number(f: f64) -> Option<serde_json::Number> {
    serde_json::Number::from_f64(f)
}

fn result(names: &[&str], rows: Vec<Vec<Option<Cql>>>) -> ResultSet {
    ResultSet { names: names.iter().map(|n| n.to_string()).collect(), rows }
}

#[test]
fn cql_scalar_to_json() {
    assert_eq!(cql_to_json(&Cql::Int(7)), json("7"));
    assert_eq!(cql_to_json(&Cql::Boolean(true)), json("true"));
    assert_eq!(cql_to_json(&Cql::Text("hi".into())), json("\"hi\""));
    assert_eq!(
        cql_to_json(&Cql::ListOf(vec![Cql::Int(1), Cql::Int(2)])),
        json("[1, 2]")
    );
}

#[test]
fn cql_integers_to_json() {
    assert_eq!(cql_to_json(&Cql::Int(-7)), json("-7"));
    assert_eq!(cql_to_json(&Cql::BigInt(i64::MIN)), json("-9223372036854775808"));
    assert_eq!(cql_to_json(&Cql::SmallInt(300)), json("300"));
    assert_eq!(cql_to_json(&Cql::TinyInt(-128)), json("-128"));
}

#[test]
fn cql_floats_to_json() {
    assert_eq!(text(&cql_to_json(&Cql::Double(number(1.5)))), "1.5");
    assert_eq!(text(&cql_to_json(&Cql::Float(number(0.5)))), "0.5");
    assert_eq!(text(&cql_to_json(&Cql::Double(number(2.0)))), "2.0");
    assert_eq!(cql_to_json(&Cql::Double(number(f64::NAN))), Json::Null);
    assert_eq!(cql_to_json(&Cql::Float(None)), Json::Null);
}

#[test]
fn cql_texts_uuids_and_empty_to_json() {
    assert_eq!(cql_to_json(&Cql::Ascii("a'b".into())), json("\"a'b\""));
    assert_eq!(cql_to_json(&Cql::Empty), Json::Null);
    let bytes: [u8; 16] = [
        0xa1, 0xa2, 0xa3, 0xa4, 0xb1, 0xb2, 0xc1, 0xc2, 0xd1, 0xd2, 0x03, 0xd4, 0xd5, 0xd6, 0xd7, 0xff,
    ];
    assert_eq!(cql_to_json(&Cql::Uuid(bytes)), json("\"a1a2a3a4-b1b2-c1c2-d1d2-03d4d5d6d7ff\""));
}

#[test]
fn collections_keep_their_items() {
    let items = || vec![Cql::Text("a".into()), Cql::ListOf(vec![]), Cql::Empty];
    assert_eq!(cql_to_json(&Cql::ListOf(items())), json("[\"a\", [], null]"));
    assert_eq!(cql_to_json(&Cql::SetOf(items())), json("[\"a\", [], null]"));
    let pairs = vec![(Cql::Text("k".into()), Cql::Int(1)), (Cql::Text("l".into()), Cql::Empty)];
    assert_eq!(cql_to_json(&Cql::MapOf(pairs)), json("[[\"k\", 1], [\"l\", null]]"));
}

#[test]
fn other_values_fall_back_to_their_debug_form() {
    let value = CqlValue::Counter(Counter(5));
    let shown = format!("{:?}", value);
    assert_eq!(cql_to_json(&Cql::Other(value)), Json::String(shown));
    let blob = CqlValue::Blob(vec![1, 2]);
    assert_eq!(cql_to_json(&Cql::Other(blob)), json("\"Blob([1, 2])\""));
}

#[test]
fn rows_are_keyed_by_column_name() {
    let set = result(
        &["name", "age"],
        vec![vec![Some(Cql::Text("ada".into())), Some(Cql::Int(36))], vec![None, Some(Cql::Empty)]],
    );
    assert_eq!(
        text(&outcome_to_json(&Some(set))),
        "{\"rows\":[{\"name\":\"ada\",\"age\":36},{\"name\":null,\"age\":null}]}"
    );
    assert_eq!(text(&outcome_to_json(&None)), "{\"ok\":true}");
}

#[test]
fn columns_without_a_name_are_numbered() {
    let row = row_to_json(&vec!["a".to_string()], &vec![Some(Cql::Int(1)), Some(Cql::Int(2)), None]);
    assert_eq!(text(&Json::Object(row)), "{\"a\":1,\"1\":2,\"2\":null}");
}

#[test]
fn the_last_column_of_a_name_counts() {
    let names = vec!["a".to_string(), "b".to_string(), "a".to_string()];
    let row = row_to_json(&names, &vec![Some(Cql::Int(1)), Some(Cql::Int(2)), Some(Cql::Int(3))]);
    assert_eq!(row.len(), 2);
    assert_eq!(row.get("a"), Some(&json("3")));
    assert_eq!(row.get("b"), Some(&json("2")));
    assert_eq!(row.get("c"), None);
    assert_eq!(row.entry(0), (&"a".to_string(), &json("3")));
}

fn answer(how: Answer, set: Option<ResultSet>) -> String {
    text(&answer_from(how, Ok(set)).unwrap())
}

fn people() -> ResultSet {
    result(
        &["name", "age"],
        vec![
            vec![Some(Cql::Text("ada".into())), Some(Cql::Int(36))],
            vec![Some(Cql::Text("bob".into())), None],
        ],
    )
}

#[test]
fn rows_come_back_in_order() {
    assert_eq!(
        answer(Answer::Rows, Some(people())),
        "{\"value\":[{\"name\":\"ada\",\"age\":36},{\"name\":\"bob\",\"age\":null}]}"
    );
    assert_eq!(answer(Answer::Rows, None), "{\"value\":[]}");
    assert_eq!(rows_of(&json("{\"rows\": 3}")), json("3"));
    assert_eq!(rows_of(&json("{}")), json("[]"));
}

#[test]
fn first_row_and_first_value() {
    assert_eq!(answer(Answer::FirstRow, Some(people())), "{\"value\":{\"name\":\"ada\",\"age\":36}}");
    assert_eq!(answer(Answer::FirstValue, Some(people())), "{\"value\":\"ada\"}");
}

#[test]
fn first_value_is_the_first_column_whatever_the_names() {
    let twice = || {
        result(&["x", "x"], vec![vec![Some(Cql::Int(1)), Some(Cql::Int(2))], vec![None, None]])
    };
    assert_eq!(answer(Answer::FirstValue, Some(twice())), "{\"value\":1}");
    assert_eq!(answer(Answer::FirstRow, Some(twice())), "{\"value\":{\"x\":2}}");
    let around = result(&["a", "b", "a"], vec![vec![None, Some(Cql::Int(2)), Some(Cql::Int(3))]]);
    assert_eq!(answer(Answer::FirstValue, Some(around)), "{\"value\":null}");
}

#[test]
fn no_rows_are_answered_with_null() {
    let none = || Some(result(&["c"], vec![]));
    assert_eq!(answer(Answer::FirstRow, none()), "{\"value\":null}");
    assert_eq!(answer(Answer::FirstValue, none()), "{\"value\":null}");
    assert_eq!(answer(Answer::ServerVersion, none()), "{\"value\":null}");
    assert_eq!(answer(Answer::Count, none()), "{\"value\":0}");
    assert_eq!(answer(Answer::FirstRow, None), "{\"value\":null}");
    assert_eq!(answer(Answer::FirstValue, Some(result(&[], vec![vec![]]))), "{\"value\":null}");
}

#[test]
fn names_are_listed_row_by_row() {
    let set = |column: &str| {
        Some(result(
            &[column],
            vec![vec![Some(Cql::Text("a".into()))], vec![Some(Cql::Text("b".into()))]],
        ))
    };
    assert_eq!(answer(Answer::KeyspaceNames, set("keyspace_name")), "{\"value\":[\"a\",\"b\"]}");
    assert_eq!(answer(Answer::TableNames, set("table_name")), "{\"value\":[\"a\",\"b\"]}");
    assert_eq!(answer(Answer::TableNames, set("other")), "{\"value\":[]}");
    assert_eq!(answer(Answer::TableNames, None), "{\"value\":[]}");
}

#[test]
fn counts_and_versions_come_from_the_first_row() {
    let set = result(&["c"], vec![vec![Some(Cql::BigInt(12))]]);
    assert_eq!(answer(Answer::Count, Some(set)), "{\"value\":12}");
    let set = result(&["release_version"], vec![vec![Some(Cql::Text("4.0".into()))]]);
    assert_eq!(answer(Answer::ServerVersion, Some(set)), "{\"value\":\"4.0\"}");
    assert_eq!(answer(Answer::Done, Some(people())), "{\"ok\":true}");
}

#[test]
fn asking_for_life_never_fails() {
    assert_eq!(answer(Answer::Alive, Some(people())), "{\"value\":true}");
    let down = answer_from(Answer::Alive, Err(Failure::Connect("x".into()))).unwrap();
    assert_eq!(text(&down), "{\"value\":false}");
    assert_eq!(
        answer_from(Answer::Rows, Err(Failure::Driver("x".into()))),
        Err(Failure::Driver("x".into()))
    );
}
