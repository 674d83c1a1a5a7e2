use stryke_scylla::cache::SessionCache;
use stryke_scylla::conn::{conn_from_opts, normalize_node, opt_str, resolve_conn, ConnKey};
use stryke_scylla::json::Json;

fn json(text: &str) -> Json {
    Json::parse(text.as_bytes()).unwrap()
}

fn nodes(text: &str) -> Vec<String> {
    conn_from_opts(&json(text)).nodes
}

#[test]
fn normalize_node_adds_default_port() {
    assert_eq!(normalize_node("10.0.0.1"), "10.0.0.1:9042");
    assert_eq!(normalize_node("10.0.0.1:9999"), "10.0.0.1:9999");
}

#[test]
fn conn_defaults_to_localhost() {
    let k = conn_from_opts(&json("{}"));
    assert_eq!(k.nodes, vec!["127.0.0.1:9042".to_string()]);
    assert_eq!(k.keyspace, "");
}

#[test]
fn conn_node_with_explicit_port() {
    let k = conn_from_opts(&json("{\"host\": \"db\", \"port\": 9042, \"keyspace\": \"app\"}"));
    assert_eq!(k.nodes, vec!["db:9042".to_string()]);
    assert_eq!(k.keyspace, "app");
}

#[test]
fn conn_nodes_array_normalizes_ports() {
    let k = conn_from_opts(&json("{\"nodes\": [\"a\", \"b:9100\"]}"));
    assert_eq!(k.nodes, vec!["a:9042".to_string(), "b:9100".to_string()]);
}

#[test]
fn normalizing_twice_is_normalizing_once() {
    for s in ["", "h", "h:1", ":", "::1"] {
        let once = normalize_node(s);
        assert!(once.contains(':'));
        assert_eq!(normalize_node(&once), once);
    }
}

#[test]
fn node_comes_before_host() {
    assert_eq!(nodes("{\"node\": \"n\", \"host\": \"h\"}"), vec!["n:9042"]);
    assert_eq!(nodes("{\"host\": \"h\"}"), vec!["h:9042"]);
    // a node that is no string still hides the host
    assert_eq!(nodes("{\"node\": 1, \"host\": \"h\"}"), vec!["127.0.0.1:9042"]);
}

#[test]
fn port_is_used_where_the_node_names_none() {
    assert_eq!(nodes("{\"node\": \"n\", \"port\": 19042}"), vec!["n:19042"]);
    assert_eq!(nodes("{\"node\": \"n:1\", \"port\": 19042}"), vec!["n:1"]);
    assert_eq!(nodes("{\"node\": \"n\", \"port\": -7}"), vec!["n:-7"]);
    assert_eq!(nodes("{\"node\": \"n\", \"port\": \"19042\"}"), vec!["n:9042"]);
    assert_eq!(nodes("{\"node\": \"n\", \"port\": 1.5}"), vec!["n:9042"]);
    assert_eq!(nodes("{\"node\": \"n\", \"port\": 9223372036854775808}"), vec!["n:9042"]);
    assert_eq!(nodes("{\"node\": \"n\", \"port\": 9223372036854775807}"), vec!["n:9223372036854775807"]);
}

#[test]
fn nodes_override_node_and_host() {
    assert_eq!(nodes("{\"nodes\": [\"a\"], \"node\": \"n\", \"host\": \"h\", \"port\": 1}"), vec!["a:9042"]);
    assert_eq!(nodes("{\"nodes\": [1, \"a\", null]}"), vec!["a:9042"]);
    assert_eq!(nodes("{\"nodes\": [], \"node\": \"n\"}"), vec!["127.0.0.1:9042"]);
    // only an array overrides
    assert_eq!(nodes("{\"nodes\": \"a\", \"node\": \"n\"}"), vec!["n:9042"]);
}

#[test]
fn options_that_are_no_object_give_the_default() {
    for text in ["null", "[]", "\"node\"", "3"] {
        assert_eq!(nodes(text), vec!["127.0.0.1:9042"]);
    }
}

#[test]
fn credentials_and_keyspace_are_strings() {
    let k = conn_from_opts(&json("{\"username\": \"u\", \"password\": \"p\", \"keyspace\": 3}"));
    assert_eq!((k.username.as_str(), k.password.as_str(), k.keyspace.as_str()), ("u", "p", ""));
    assert_eq!(opt_str(&json("{\"a\": \"b\"}"), "a"), Some("b"));
    assert_eq!(opt_str(&json("{\"a\": 1}"), "a"), None);
    assert_eq!(opt_str(&json("{}"), "a"), None);
}

#[test]
fn environment_is_a_fallback() {
    let none = json("{}");
    assert_eq!(resolve_conn(&none, Some("a,b:1")).nodes, vec!["a:9042", "b:1"]);
    assert_eq!(resolve_conn(&none, Some("a,,b,")).nodes, vec!["a:9042", "b:9042"]);
    assert_eq!(resolve_conn(&none, Some("")).nodes, vec!["127.0.0.1:9042"]);
    assert_eq!(resolve_conn(&none, None).nodes, vec!["127.0.0.1:9042"]);
    let given = json("{\"node\": \"n\"}");
    assert_eq!(resolve_conn(&given, Some("a")).nodes, vec!["n:9042"]);
}

fn key(node: &str, user: &str, keyspace: &str) -> ConnKey {
    ConnKey {
        nodes: vec![node.to_string()],
        username: user.to_string(),
        password: String::new(),
        keyspace: keyspace.to_string(),
    }
}

#[test]
fn sessions_are_kept_by_their_key() {
    let mut cache: SessionCache<u32> = SessionCache::new();
    assert_eq!(cache.get(&key("a", "", "")), None);
    cache.insert(key("a", "", ""), 1);
    cache.insert(key("a", "u", ""), 2);
    cache.insert(key("a", "", "ks"), 3);
    cache.insert(key("b", "", ""), 4);
    assert_eq!(cache.get(&key("a", "", "")), Some(&1));
    assert_eq!(cache.get(&key("a", "u", "")), Some(&2));
    assert_eq!(cache.get(&key("a", "", "ks")), Some(&3));
    assert_eq!(cache.get(&key("b", "", "")), Some(&4));
    assert_eq!(cache.get(&key("b", "u", "")), None);
    cache.insert(key("a", "", ""), 5);
    assert_eq!(cache.get(&key("a", "", "")), Some(&5));
    assert_eq!(cache.get(&key("b", "", "")), Some(&4));
}

#[test]
fn keys_differ_by_their_list_of_nodes() {
    let mut two = key("a", "", "");
    two.nodes.push("b".to_string());
    let mut cache: SessionCache<u32> = SessionCache::new();
    cache.insert(two, 1);
    assert_eq!(cache.get(&key("a", "", "")), None);
}
