use stryke_scylla::cache::SessionCache;
use stryke_scylla::commands::{str_field, Answer};
use stryke_scylla::exports::{
    scylla__columns, scylla__contact_points, scylla__count, scylla__create_keyspace,
    scylla__create_table, scylla__drop_keyspace, scylla__drop_table, scylla__escape_string,
    scylla__execute, scylla__format_in_list, scylla__format_value, scylla__keyspaces, scylla__ping,
    scylla__query, scylla__query_row, scylla__query_value, scylla__quote_identifier,
    scylla__quote_literal, scylla__raw, scylla__server_version, scylla__tables, scylla__truncate,
    scylla__valid_identifier, scylla__version, Start,
};
use stryke_scylla::json::Json;
use stryke_scylla::reply::{panicked_reply, read_args, reply_of, respond, text_to_send, Failure};
use stryke_scylla::rows::{Cql, ResultSet};
use stryke_scylla::session::{advance, begin, begin_with, keep, Action, Event, Flow, Job, Progress};

type Command = fn(Option<&[u8]>, Option<&str>) -> Start;

fn job(command: Command, args: &str) -> Job {
    match command(Some(args.as_bytes()), None) {
        Start::Run(job) => job,
        Start::Reply(text) => panic!("{}", text),
    }
}

fn statement(command: Command, args: &str) -> (String, Answer) {
    let query = job(command, args).query;
    (query.cql, query.answer)
}

fn refusal(command: Command, args: &str) -> String {
    match command(Some(args.as_bytes()), None) {
        Start::Run(job) => panic!("{:?}", job),
        Start::Reply(text) => text,
    }
}

#[test]
fn cdylib_crate_compiles() {
    let reply = scylla__version(None, "1.2.3");
    assert_eq!(reply, "{\"version\":\"1.2.3\"}");
}

#[test]
fn helpers_reply_with_json() {
    let args = |text: &'static str| Some(text.as_bytes());
    assert_eq!(scylla__escape_string(args("{\"value\":\"a'b\"}")), "{\"value\":\"a''b\"}");
    assert_eq!(scylla__quote_literal(args("{\"value\":\"a'b\"}")), "{\"value\":\"'a''b'\"}");
    assert_eq!(scylla__quote_identifier(args("{\"value\":\"Col\"}")), "{\"value\":\"\\\"Col\\\"\"}");
    assert_eq!(scylla__format_value(args("{\"value\":[1,\"x\"]}")), "{\"value\":\"[1, 'x']\"}");
    assert_eq!(scylla__format_value(args("{\"value\":null}")), "{\"value\":\"NULL\"}");
    assert_eq!(scylla__format_in_list(args("{\"values\":[1,\"a\"]}")), "{\"value\":\"(1, 'a')\"}");
    assert_eq!(scylla__format_in_list(args("{\"values\":[]}")), "{\"value\":\"(NULL)\"}");
    assert_eq!(scylla__valid_identifier(args("{\"value\":\"col_1\"}")), "{\"valid\":true}");
    assert_eq!(scylla__valid_identifier(args("{\"value\":\"1col\"}")), "{\"valid\":false}");
    assert_eq!(
        scylla__contact_points(args("{\"nodes\":[\"a\",\"b:1\"]}"), Some("c")),
        "{\"value\":[\"a:9042\",\"b:1\"]}"
    );
    assert_eq!(scylla__contact_points(None, Some("c,d")), "{\"value\":[\"c:9042\",\"d:9042\"]}");
    assert_eq!(scylla__contact_points(None, None), "{\"value\":[\"127.0.0.1:9042\"]}");
}

#[test]
fn helpers_name_a_missing_field() {
    let missing = "{\"error\":\"missing value\"}";
    for args in [None, Some("null".as_bytes()), Some("not json".as_bytes()), Some("{\"value\":1}".as_bytes())] {
        assert_eq!(scylla__escape_string(args), missing);
        assert_eq!(scylla__quote_literal(args), missing);
        assert_eq!(scylla__quote_identifier(args), missing);
        assert_eq!(scylla__valid_identifier(args), missing);
    }
    assert_eq!(scylla__format_value(Some(b"{}")), missing);
    assert_eq!(scylla__format_in_list(Some(b"{}")), "{\"error\":\"missing values array\"}");
    assert_eq!(scylla__format_in_list(Some(b"{\"values\":1}")), "{\"error\":\"missing values array\"}");
}

#[test]
fn statements_are_run_as_given() {
    let args = "{\"cql\":\"SELECT 1\"}";
    assert_eq!(statement(scylla__query, args), ("SELECT 1".to_string(), Answer::Rows));
    assert_eq!(statement(scylla__query_row, args), ("SELECT 1".to_string(), Answer::FirstRow));
    assert_eq!(statement(scylla__query_value, args), ("SELECT 1".to_string(), Answer::FirstValue));
    assert_eq!(statement(scylla__execute, args), ("SELECT 1".to_string(), Answer::Done));
    for command in [scylla__query as Command, scylla__query_row, scylla__query_value, scylla__execute, scylla__raw] {
        assert_eq!(refusal(command, "{}"), "{\"error\":\"missing cql\"}");
        assert_eq!(refusal(command, "{\"cql\":7}"), "{\"error\":\"missing cql\"}");
    }
}

#[test]
fn raw_statements_answer_by_rows_unless_told() {
    assert_eq!(statement(scylla__raw, "{\"cql\":\"X\"}").1, Answer::Rows);
    assert_eq!(statement(scylla__raw, "{\"cql\":\"X\",\"rows\":true}").1, Answer::Rows);
    assert_eq!(statement(scylla__raw, "{\"cql\":\"X\",\"rows\":0}").1, Answer::Rows);
    assert_eq!(statement(scylla__raw, "{\"cql\":\"X\",\"rows\":false}").1, Answer::Done);
}

#[test]
fn liveness_asks_for_the_version() {
    let cql = "SELECT release_version FROM system.local".to_string();
    assert_eq!(statement(scylla__ping, "{}"), (cql.clone(), Answer::Alive));
    assert_eq!(statement(scylla__server_version, "{}"), (cql, Answer::ServerVersion));
}

#[test]
fn schema_statements_escape_names() {
    assert_eq!(
        statement(scylla__keyspaces, "{}"),
        ("SELECT keyspace_name FROM system_schema.keyspaces".to_string(), Answer::KeyspaceNames)
    );
    assert_eq!(
        statement(scylla__tables, "{\"keyspace\":\"a'b\"}"),
        (
            "SELECT table_name FROM system_schema.tables WHERE keyspace_name = 'a''b'".to_string(),
            Answer::TableNames
        )
    );
    assert_eq!(
        statement(scylla__columns, "{\"keyspace\":\"k\",\"table\":\"t'\"}"),
        (
            "SELECT column_name, type, kind FROM system_schema.columns \
             WHERE keyspace_name = 'k' AND table_name = 't'''"
                .to_string(),
            Answer::Rows
        )
    );
    assert_eq!(refusal(scylla__tables, "{}"), "{\"error\":\"missing keyspace\"}");
    assert_eq!(refusal(scylla__columns, "{}"), "{\"error\":\"missing keyspace\"}");
    assert_eq!(refusal(scylla__columns, "{\"keyspace\":\"k\"}"), "{\"error\":\"missing table\"}");
}

#[test]
fn counting_names_the_table() {
    assert_eq!(
        statement(scylla__count, "{\"table\":\"app.users\"}"),
        ("SELECT count(*) AS c FROM app.users".to_string(), Answer::Count)
    );
    assert_eq!(refusal(scylla__count, "{}"), "{\"error\":\"missing table\"}");
}

#[test]
fn definition_statements() {
    assert_eq!(
        statement(scylla__create_keyspace, "{\"name\":\"app\"}"),
        (
            "CREATE KEYSPACE IF NOT EXISTS app WITH replication = \
             {'class': 'SimpleStrategy', 'replication_factor': 1}"
                .to_string(),
            Answer::Done
        )
    );
    assert_eq!(
        statement(scylla__create_keyspace, "{\"name\":\"app\",\"replication\":\"{'x': 1}\"}").0,
        "CREATE KEYSPACE IF NOT EXISTS app WITH replication = {'x': 1}"
    );
    assert_eq!(
        statement(scylla__drop_keyspace, "{\"name\":\"app\"}"),
        ("DROP KEYSPACE IF EXISTS app".to_string(), Answer::Done)
    );
    assert_eq!(
        statement(
            scylla__create_table,
            "{\"name\":\"app.users\",\"columns\":\"id uuid, name text\",\"primary_key\":\"id\"}"
        ),
        (
            "CREATE TABLE IF NOT EXISTS app.users (id uuid, name text, PRIMARY KEY (id))".to_string(),
            Answer::Done
        )
    );
    assert_eq!(
        statement(scylla__create_table, "{\"cql\":\"CREATE TABLE t\",\"name\":\"x\"}"),
        ("CREATE TABLE t".to_string(), Answer::Done)
    );
    assert_eq!(
        statement(scylla__drop_table, "{\"table\":\"t\"}"),
        ("DROP TABLE IF EXISTS t".to_string(), Answer::Done)
    );
    assert_eq!(
        statement(scylla__truncate, "{\"table\":\"t\"}"),
        ("TRUNCATE t".to_string(), Answer::Done)
    );
}

#[test]
fn definitions_name_a_missing_field() {
    assert_eq!(refusal(scylla__create_keyspace, "{}"), "{\"error\":\"missing name\"}");
    assert_eq!(refusal(scylla__drop_keyspace, "{}"), "{\"error\":\"missing name\"}");
    assert_eq!(refusal(scylla__create_table, "{}"), "{\"error\":\"missing name\"}");
    assert_eq!(refusal(scylla__create_table, "{\"name\":\"t\"}"), "{\"error\":\"missing columns\"}");
    assert_eq!(
        refusal(scylla__create_table, "{\"name\":\"t\",\"columns\":\"c\"}"),
        "{\"error\":\"missing primary_key\"}"
    );
    assert_eq!(refusal(scylla__drop_table, "{}"), "{\"error\":\"missing table\"}");
    assert_eq!(refusal(scylla__truncate, "{}"), "{\"error\":\"missing table\"}");
}

#[test]
fn jobs_carry_their_connection() {
    let conn = job(
        scylla__query,
        "{\"cql\":\"X\",\"host\":\"db\",\"port\":1,\"username\":\"u\",\"password\":\"p\",\"keyspace\":\"k\"}",
    )
    .conn;
    assert_eq!(conn.nodes, vec!["db:1"]);
    assert_eq!((conn.username.as_str(), conn.password.as_str(), conn.keyspace.as_str()), ("u", "p", "k"));
    match scylla__ping(None, Some("e1,e2:5")) {
        Start::Run(job) => assert_eq!(job.conn.nodes, vec!["e1:9042", "e2:5"]),
        Start::Reply(text) => panic!("{}", text),
    }
}

fn next(progress: Progress) -> (Flow, Action) {
    match progress {
        Progress::Next(flow, action) => (flow, action),
        Progress::Reply(text) => panic!("{}", text),
    }
}

fn reply(progress: Progress) -> String {
    match progress {
        Progress::Next(_, action) => panic!("{:?}", action),
        Progress::Reply(text) => text,
    }
}

fn connect(node: &str, credentials: Option<(&str, &str)>) -> Action {
    Action::Connect {
        nodes: vec![node.to_string()],
        credentials: credentials.map(|(u, p)| (u.to_string(), p.to_string())),
    }
}

#[test]
fn session_is_opened_in_order() {
    let (flow, action) = next(begin(job(scylla__query, "{\"cql\":\"X\",\"node\":\"n\",\"keyspace\":\"k\"}"), false));
    assert_eq!(action, connect("n:9042", None));
    let (flow, action) = next(advance(flow, Event::Succeeded(None)));
    assert_eq!(action, Action::UseKeyspace("k".to_string()));
    let (flow, action) = next(advance(flow, Event::Succeeded(None)));
    assert_eq!(action, Action::Store);
    let (flow, action) = next(advance(flow, Event::Succeeded(None)));
    assert_eq!(action, Action::Run("X".to_string()));
    let rows = ResultSet { names: vec!["a".to_string()], rows: vec![vec![Some(Cql::Int(1))]] };
    assert_eq!(reply(advance(flow, Event::Succeeded(Some(rows)))), "{\"value\":[{\"a\":1}]}");
}

#[test]
fn session_without_keyspace_selects_none() {
    let (flow, _) = next(begin(job(scylla__execute, "{\"cql\":\"X\",\"node\":\"n\"}"), false));
    let (flow, action) = next(advance(flow, Event::Succeeded(None)));
    assert_eq!(action, Action::Store);
    let (flow, _) = next(advance(flow, Event::Succeeded(None)));
    assert_eq!(reply(advance(flow, Event::Succeeded(None))), "{\"ok\":true}");
}

#[test]
fn credentials_are_sent_where_one_is_given() {
    let action = |opts: &str| next(begin(job(scylla__ping, opts), false)).1;
    assert_eq!(action("{\"node\":\"n\"}"), connect("n:9042", None));
    assert_eq!(action("{\"node\":\"n\",\"username\":\"u\"}"), connect("n:9042", Some(("u", ""))));
    assert_eq!(action("{\"node\":\"n\",\"password\":\"p\"}"), connect("n:9042", Some(("", "p"))));
}

#[test]
fn open_session_is_used() {
    let (flow, action) = next(begin(job(scylla__query, "{\"cql\":\"X\",\"keyspace\":\"k\"}"), true));
    assert_eq!(action, Action::Run("X".to_string()));
    assert_eq!(reply(advance(flow, Event::Failed("bad query".to_string()))), "{\"error\":\"bad query\"}");
}

#[test]
fn kept_session_serves_later_requests() {
    let mut cache: SessionCache<u32> = SessionCache::new();
    let first = "{\"cql\":\"X\",\"node\":\"n\"}";
    let (flow, action) = next(begin_with(job(scylla__query, first), &cache));
    assert_eq!(action, connect("n:9042", None));
    let (flow, action) = next(advance(flow, Event::Succeeded(None)));
    assert_eq!(action, Action::Store);
    keep(&flow, &mut cache, 7);
    assert_eq!(cache.get(&flow.job.conn), Some(&7));
    // another command, another way to name the node: the same connection
    let (_, action) = next(begin_with(job(scylla__execute, "{\"cql\":\"Y\",\"host\":\"n\",\"port\":9042}"), &cache));
    assert_eq!(action, Action::Run("Y".to_string()));
    // another keyspace or user: another connection
    for other in ["{\"cql\":\"Y\",\"node\":\"n\",\"keyspace\":\"k\"}", "{\"cql\":\"Y\",\"node\":\"n\",\"username\":\"u\"}"] {
        let (other_flow, action) = next(begin_with(job(scylla__query, other), &cache));
        assert!(matches!(action, Action::Connect { .. }));
        keep(&other_flow, &mut cache, 8);
        assert_eq!(cache.get(&flow.job.conn), Some(&7));
    }
    let (_, action) = next(begin_with(job(scylla__query, first), &cache));
    assert_eq!(action, Action::Run("X".to_string()));
}

#[test]
fn replies_hold_no_zero_and_read_back() {
    let message = "a\u{0}b\u{1}\u{1f}\"\\ é\u{10ffff}";
    let text = respond(Err(Failure::Driver(message.to_string())));
    assert!(!text.as_bytes().contains(&0));
    assert_eq!(Json::parse(text.as_bytes()), Some(Json::single("error", Json::String(message.to_string()))));
    let reply = scylla__escape_string(Some(b"{\"value\":\"\\u0000'\"}"));
    assert_eq!(reply, "{\"value\":\"\\u0000''\"}");
    for document in ["[0,-9223372036854775808,18446744073709551615]", "{\"b\":{},\"a\":[null,true]}"] {
        let v = read_args(Some(document.as_bytes()));
        assert_eq!(respond(Ok(v)), document);
    }
}

#[test]
fn replies_read_back_to_the_deepest_nesting_that_is_read() {
    let nested = |depth: usize| (0..depth).fold(Json::Null, |inner, _| Json::Array(vec![inner]));
    let text = nested(127).encode().unwrap();
    assert_eq!(Json::parse(text.as_bytes()), Some(nested(127)));
    assert_eq!(Json::parse(nested(128).encode().unwrap().as_bytes()), None);
}

#[test]
fn replies_with_floats_are_accepted() {
    let floats = [f64::MAX, f64::MIN, f64::MIN_POSITIVE, 5e-324, -0.0, 0.1, 1e16, 1e17, 1.7976931348623155e308];
    for f in floats {
        let n = serde_json::Number::from_f64(f).unwrap();
        let rows = ResultSet { names: vec!["f".to_string()], rows: vec![vec![Some(Cql::Double(Some(n)))]] };
        let (flow, _) = next(begin(job(scylla__query, "{\"cql\":\"X\"}"), true));
        let text = reply(advance(flow, Event::Succeeded(Some(rows))));
        assert!(Json::parse(text.as_bytes()).is_some(), "{}", text);
    }
}

#[test]
fn replies_with_deep_values_are_accepted() {
    let deep = |depth: usize| (0..depth).fold(Cql::Int(1), |inner, _| Cql::ListOf(vec![inner]));
    let text_of = |depth: usize| {
        let rows = ResultSet { names: vec!["v".to_string()], rows: vec![vec![Some(deep(depth))]] };
        let (flow, _) = next(begin(job(scylla__query, "{\"cql\":\"X\"}"), true));
        reply(advance(flow, Event::Succeeded(Some(rows))))
    };
    assert!(Json::parse(text_of(124).as_bytes()).is_some());
    assert!(Json::parse(text_of(125).as_bytes()).is_none());
}

#[test]
fn helper_replies_read_back() {
    let reply = scylla__contact_points(Some(b"{\"nodes\":[\"a\\u0000\",\"b:1\"]}"), None);
    let nodes = vec![Json::String("a\u{0}:9042".to_string()), Json::String("b:1".to_string())];
    assert_eq!(Json::parse(reply.as_bytes()), Some(Json::single("value", Json::Array(nodes))));
    let reply = scylla__quote_identifier(Some(b"{\"value\":\"\\\"\\n\"}"));
    assert_eq!(Json::parse(reply.as_bytes()), Some(Json::single("value", Json::String("\"\"\"\n\"".to_string()))));
}

#[test]
fn failed_connection_ends_the_request() {
    let (flow, _) = next(begin(job(scylla__query, "{\"cql\":\"X\"}"), false));
    assert_eq!(
        reply(advance(flow, Event::Failed("refused".to_string()))),
        "{\"error\":\"connect: refused\"}"
    );
}

#[test]
fn failed_keyspace_ends_the_request() {
    let (flow, _) = next(begin(job(scylla__query, "{\"cql\":\"X\",\"keyspace\":\"k\"}"), false));
    let (flow, _) = next(advance(flow, Event::Succeeded(None)));
    assert_eq!(
        reply(advance(flow, Event::Failed("unknown".to_string()))),
        "{\"error\":\"use keyspace k: unknown\"}"
    );
}

#[test]
fn ping_tells_a_silent_cluster() {
    let (flow, _) = next(begin(job(scylla__ping, "{}"), false));
    assert_eq!(reply(advance(flow, Event::Failed("refused".to_string()))), "{\"value\":false}");
    let (flow, _) = next(begin(job(scylla__ping, "{}"), true));
    assert_eq!(reply(advance(flow, Event::Succeeded(None))), "{\"value\":true}");
}

#[test]
fn replies_tell_failures() {
    assert_eq!(panicked_reply(), "{\"error\":\"stryke-scylla handler panicked\"}");
    assert_eq!(respond(Err(Failure::Driver("a\"b\u{0}".to_string()))), "{\"error\":\"a\\\"b\\u0000\"}");
    assert_eq!(respond(Ok(Json::Null)), "null");
    assert_eq!(reply_of(Ok(Json::Bool(true))), Json::Bool(true));
    assert_eq!(text_to_send(None), "{\"error\":\"serialize\"}");
    assert_eq!(text_to_send(Some("x".to_string())), "x");
    assert_eq!(Failure::Missing("x".to_string()).message(), "missing x");
}

#[test]
fn arguments_that_are_no_json_are_null() {
    assert_eq!(read_args(None), Json::Null);
    assert_eq!(read_args(Some(b"{")), Json::Null);
    assert_eq!(read_args(Some(b"\xff")), Json::Null);
    assert_eq!(read_args(Some(b"[true]")), Json::Array(vec![Json::Bool(true)]));
}

#[test]
fn required_fields_are_strings() {
    let v = read_args(Some(b"{\"a\":\"x\",\"b\":1}"));
    assert_eq!(str_field(&v, "a"), Ok("x"));
    assert_eq!(str_field(&v, "b"), Err(Failure::Missing("b".to_string())));
}
