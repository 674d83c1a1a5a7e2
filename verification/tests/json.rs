use stryke_scylla::json::{Json, JsonNumber, JsonObject};
use stryke_scylla::text::{contains_char, integer_to_string, join, natural_to_string, split};

fn json(text: &str) -> Json {
    Json::parse(text.as_bytes()).unwrap()
}

#[test]
fn documents_are_read_and_written() {
    let text = "{\"z\":[1,-2,2.5,true,null,\"é\\n\"],\"a\":{}}";
    assert_eq!(json(text).encode(), Some(text.to_string()));
    assert_eq!(json(text).display(), text);
    assert_eq!(Json::parse(b"{\"a\":}"), None);
    assert_eq!(Json::parse(b""), None);
}

#[test]
fn displaying_is_writing() {
    for text in ["{\"a\":[1.5,\"\\u0000\"],\"b\":null}", "[]", "\"é\"", "-7", "1e300"] {
        assert_eq!(Some(json(text).display()), json(text).encode());
    }
}

#[test]
fn documents_pass_through_serde() {
    let document: serde_json::Value =
        serde_json::from_str("{\"b\":[0,-1,1.5e300,18446744073709551615],\"a\":\"x\"}").unwrap();
    let value = Json::from_serde(document.clone());
    assert_eq!(value.to_serde(), document);
    assert_eq!(value.clone(), value);
}

#[test]
fn numbers_are_told_apart() {
    assert_eq!(json("7"), Json::Number(JsonNumber::PosInt(7)));
    assert_eq!(json("-7"), Json::Number(JsonNumber::NegInt(-7)));
    let half = serde_json::Number::from_f64(0.5).unwrap();
    assert_eq!(json("0.5"), Json::Number(JsonNumber::Float(half.clone())));
    assert_eq!(JsonNumber::Float(half).text(), "0.5");
    assert_eq!(json("7").as_i64(), Some(7));
    assert_eq!(json("9223372036854775808").as_i64(), None);
    assert_eq!(json("7.0").as_i64(), None);
    assert_eq!(json("\"7\"").as_i64(), None);
}

#[test]
fn an_integer_that_serde_holds_is_that_integer() {
    let held = JsonNumber::Float(serde_json::Number::from(-5));
    assert_eq!(held.text(), "-5");
    assert_eq!(held.as_i64(), Some(-5));
    assert_eq!(JsonNumber::from_serde(held.to_serde()), JsonNumber::NegInt(-5));
    assert_eq!(JsonNumber::from_serde(serde_json::Number::from(5)), JsonNumber::PosInt(5));
    assert_eq!(JsonNumber::PosInt(u64::MAX).to_serde(), serde_json::Number::from(u64::MAX));
    assert_eq!(JsonNumber::PosInt(u64::MAX).as_i64(), None);
}

#[test]
fn members_are_found_by_key() {
    let mut object = JsonObject::new();
    object.insert("a".to_string(), Json::Null);
    object.insert("b".to_string(), Json::Bool(true));
    object.insert("a".to_string(), Json::Bool(false));
    assert_eq!(object.len(), 2);
    assert_eq!(object.entry(0), (&"a".to_string(), &Json::Bool(false)));
    assert_eq!(object.get("b"), Some(&Json::Bool(true)));
    assert_eq!(object.get("c"), None);
    let value = Json::Object(object);
    assert_eq!(value.get("b").and_then(|b| b.as_bool()), Some(true));
    assert_eq!(value.as_object().map(|o| o.len()), Some(2));
    assert_eq!(value.display(), "{\"a\":false,\"b\":true}");
    // of two members of one name, the last counts
    assert_eq!(json("{\"a\":1,\"b\":2,\"a\":3}").display(), "{\"a\":3,\"b\":2}");
}

#[test]
fn items_are_found_by_index() {
    let list = json("[\"x\", 2]");
    assert_eq!(list.at(0).and_then(|v| v.as_str()), Some("x"));
    assert_eq!(list.at(2), None);
    assert_eq!(json("{}").at(0), None);
    assert_eq!(list.get("x"), None);
    assert_eq!(list.as_array().map(|a| a.len()), Some(2));
    assert_eq!(Json::Null.as_array(), None);
    assert_eq!(Json::single("k", Json::Null).display(), "{\"k\":null}");
}

#[test]
fn numerals() {
    assert_eq!(natural_to_string(0), "0");
    assert_eq!(natural_to_string(u64::MAX), "18446744073709551615");
    assert_eq!(integer_to_string(-105), "-105");
    assert_eq!(integer_to_string(i64::MIN), "-9223372036854775808");
}

#[test]
fn joining_and_splitting() {
    let parts: Vec<String> = vec!["a".to_string(), "".to_string(), "b".to_string()];
    assert_eq!(join(&parts, ", "), "a, , b");
    assert_eq!(join(&vec![], ", "), "");
    assert_eq!(split("a,,b", ','), parts);
    assert_eq!(split("", ','), vec!["".to_string()]);
    assert!(contains_char("a:b", ':'));
    assert!(!contains_char("", ':'));
}
