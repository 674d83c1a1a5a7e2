//! What each command asks of the cluster, and what it answers.
//!
//! A command looks at its options and either answers at once or names a CQL
//! statement to run and how to answer from its outcome.
use crate::conn::opt_str;
use crate::cql::{doubled, escape_string, law_escaped_text_reads_back, quoted, read_quoted};
use crate::json::{json_bool, json_get, json_str_at, Json, JsonView};
use crate::reply::{Failure, FailureView};
use vstd::prelude::*;
use vstd::string::*;

verus! {

/// How a command answers once its statement was run.
#[derive(Clone, Copy, Debug, PartialEq, Eq, Structural)]
pub enum Answer {
    /// Whether the statement succeeded.
    Alive,
    /// The server's release version.
    ServerVersion,
    /// All rows.
    Rows,
    /// The first row, or null.
    FirstRow,
    /// The first column of the first row, or null.
    FirstValue,
    /// That the statement was carried out.
    Done,
    /// The names of the keyspaces.
    KeyspaceNames,
    /// The names of the tables.
    TableNames,
    /// The number of rows of a table.
    Count,
}

/// A statement to run, and how to answer from its outcome.
#[derive(Debug, PartialEq)]
pub struct Query {
    pub cql: String,
    pub answer: Answer,
}

/// The view of a [`Query`].
#[verifier::ext_equal]
pub struct QueryView {
    pub cql: Seq<char>,
    pub answer: Answer,
}

impl View for Query {
    type V = QueryView;

    open spec fn view(&self) -> QueryView {
        QueryView { cql: self.cql@, answer: self.answer }
    }
}

/// The view of what a command asks for.
pub open spec fn plan_view(plan: Result<Query, Failure>) -> Result<QueryView, FailureView> {
    match plan {
        Ok(q) => Ok(q@),
        Err(e) => Err(e@),
    }
}

// ── fields ──────────────────────────────────────────────────────────────────

/// The string under the key, which has to be there.
pub open spec fn required(v: JsonView, key: Seq<char>) -> Result<Seq<char>, FailureView> {
    match json_str_at(v, key) {
        Some(s) => Ok(s),
        None => Err(FailureView::Missing(key)),
    }
}

/// The string under the key, which has to be there.
pub fn str_field<'a>(v: &'a Json, key: &str) -> (text: Result<&'a str, Failure>)
    ensures
        match text {
            Ok(s) => required(v@, key@) == Ok::<Seq<char>, FailureView>(s@),
            Err(e) => required(v@, key@) == Err::<Seq<char>, FailureView>(e@),
        },
{
    match opt_str(v, key) {
        Some(s) => Ok(s),
        None => Err(Failure::Missing(key.to_owned())),
    }
}

// ── liveness ────────────────────────────────────────────────────────────────

/// The statement that asks for the server's version.
pub open spec fn version_query(answer: Answer) -> QueryView {
    QueryView { cql: "SELECT release_version FROM system.local"@, answer }
}

/// Asks whether the cluster answers.
pub fn ping() -> (query: Query)
    ensures
        query@ == version_query(Answer::Alive),
{
    Query { cql: "SELECT release_version FROM system.local".to_owned(), answer: Answer::Alive }
}

/// Asks for the server's version.
pub fn server_version() -> (query: Query)
    ensures
        query@ == version_query(Answer::ServerVersion),
{
    Query {
        cql: "SELECT release_version FROM system.local".to_owned(),
        answer: Answer::ServerVersion,
    }
}

// ── statements as given ─────────────────────────────────────────────────────

/// The statement under `cql`, which has to be there.
pub open spec fn given_query(v: JsonView, answer: Answer) -> Result<QueryView, FailureView> {
    match required(v, "cql"@) {
        Ok(cql) => Ok(QueryView { cql, answer }),
        Err(e) => Err(e),
    }
}

/// Runs the statement under `cql`.
pub fn run_given(v: &Json, answer: Answer) -> (plan: Result<Query, Failure>)
    ensures
        plan_view(plan) == given_query(v@, answer),
{
    match str_field(v, "cql") {
        Ok(cql) => Ok(Query { cql: cql.to_owned(), answer }),
        Err(e) => Err(e),
    }
}

/// How a raw statement is answered: by its rows, unless `rows` is `false`.
pub open spec fn raw_answer(v: JsonView) -> Answer {
    match json_get(v, "rows"@) {
        Some(x) => if json_bool(x) == Some(false) {
            Answer::Done
        } else {
            Answer::Rows
        },
        None => Answer::Rows,
    }
}

/// Runs the statement under `cql`, answered by its rows unless `rows` is `false`.
pub fn raw(v: &Json) -> (plan: Result<Query, Failure>)
    ensures
        plan_view(plan) == given_query(v@, raw_answer(v@)),
{
    let answer: Answer = match v.get("rows") {
        Some(x) => match x.as_bool() {
            Some(wanted) => if wanted {
                Answer::Rows
            } else {
                Answer::Done
            },
            None => Answer::Rows,
        },
        None => Answer::Rows,
    };
    run_given(v, answer)
}

// ── schema ──────────────────────────────────────────────────────────────────

/// The statement that lists the keyspaces.
pub open spec fn keyspaces_query() -> QueryView {
    QueryView {
        cql: "SELECT keyspace_name FROM system_schema.keyspaces"@,
        answer: Answer::KeyspaceNames,
    }
}

/// Asks for the names of the keyspaces.
pub fn keyspaces() -> (query: Query)
    ensures
        query@ == keyspaces_query(),
{
    Query {
        cql: "SELECT keyspace_name FROM system_schema.keyspaces".to_owned(),
        answer: Answer::KeyspaceNames,
    }
}

/// The statement that lists a keyspace's tables.
pub open spec fn tables_cql(keyspace: Seq<char>) -> Seq<char> {
    "SELECT table_name FROM system_schema.tables WHERE keyspace_name = '"@ + doubled(keyspace, '\'')
        + "'"@
}

/// What `tables` asks for.
pub open spec fn tables_query(v: JsonView) -> Result<QueryView, FailureView> {
    match required(v, "keyspace"@) {
        Ok(keyspace) => Ok(QueryView { cql: tables_cql(keyspace), answer: Answer::TableNames }),
        Err(e) => Err(e),
    }
}

/// Asks for the names of a keyspace's tables.
pub fn tables(v: &Json) -> (plan: Result<Query, Failure>)
    ensures
        plan_view(plan) == tables_query(v@),
{
    match str_field(v, "keyspace") {
        Ok(keyspace) => {
            let mut cql: String =
                "SELECT table_name FROM system_schema.tables WHERE keyspace_name = '".to_owned();
            cql.append(escape_string(keyspace).as_str());
            cql.append("'");
            Ok(Query { cql, answer: Answer::TableNames })
        },
        Err(e) => Err(e),
    }
}

/// The statement that describes a table's columns.
pub open spec fn columns_cql(keyspace: Seq<char>, table: Seq<char>) -> Seq<char> {
    "SELECT column_name, type, kind FROM system_schema.columns WHERE keyspace_name = '"@ + doubled(
        keyspace,
        '\'',
    ) + "' AND table_name = '"@ + doubled(table, '\'') + "'"@
}

/// What `columns` asks for.
pub open spec fn columns_query(v: JsonView) -> Result<QueryView, FailureView> {
    match required(v, "keyspace"@) {
        Ok(keyspace) => match required(v, "table"@) {
            Ok(table) => Ok(
                QueryView { cql: columns_cql(keyspace, table), answer: Answer::Rows },
            ),
            Err(e) => Err(e),
        },
        Err(e) => Err(e),
    }
}

/// Asks for a table's columns with their types and kinds.
pub fn columns(v: &Json) -> (plan: Result<Query, Failure>)
    ensures
        plan_view(plan) == columns_query(v@),
{
    match str_field(v, "keyspace") {
        Ok(keyspace) => match str_field(v, "table") {
            Ok(table) => {
                let mut cql: String =
                    "SELECT column_name, type, kind FROM system_schema.columns WHERE keyspace_name = '".to_owned();
                cql.append(escape_string(keyspace).as_str());
                cql.append("' AND table_name = '");
                cql.append(escape_string(table).as_str());
                cql.append("'");
                Ok(Query { cql, answer: Answer::Rows })
            },
            Err(e) => Err(e),
        },
        Err(e) => Err(e),
    }
}

/// A statement made of fixed words and the string under the key, which has to be
/// there.
pub open spec fn named_query(
    v: JsonView,
    words: Seq<char>,
    key: Seq<char>,
    answer: Answer,
) -> Result<QueryView, FailureView> {
    match required(v, key) {
        Ok(name) => Ok(QueryView { cql: words + name, answer }),
        Err(e) => Err(e),
    }
}

/// A statement made of fixed words and the string under the key.
fn run_named(v: &Json, words: &str, key: &str, answer: Answer) -> (plan: Result<Query, Failure>)
    ensures
        plan_view(plan) == named_query(v@, words@, key@, answer),
{
    match str_field(v, key) {
        Ok(name) => {
            let mut cql: String = words.to_owned();
            cql.append(name);
            Ok(Query { cql, answer })
        },
        Err(e) => Err(e),
    }
}

/// Counts the rows of a table.
pub fn count(v: &Json) -> (plan: Result<Query, Failure>)
    ensures
        plan_view(plan) == named_query(
            v@,
            "SELECT count(*) AS c FROM "@,
            "table"@,
            Answer::Count,
        ),
{
    run_named(v, "SELECT count(*) AS c FROM ", "table", Answer::Count)
}

// ── definition ──────────────────────────────────────────────────────────────

/// The replication of a keyspace: as given, else one copy.
pub open spec fn replication_of(v: JsonView) -> Seq<char> {
    match json_str_at(v, "replication"@) {
        Some(s) => s,
        None => "{'class': 'SimpleStrategy', 'replication_factor': 1}"@,
    }
}

/// What `create_keyspace` asks for.
pub open spec fn create_keyspace_query(v: JsonView) -> Result<QueryView, FailureView> {
    match required(v, "name"@) {
        Ok(name) => Ok(
            QueryView {
                cql: "CREATE KEYSPACE IF NOT EXISTS "@ + name + " WITH replication = "@
                    + replication_of(v),
                answer: Answer::Done,
            },
        ),
        Err(e) => Err(e),
    }
}

/// Creates a keyspace. `replication` is the CQL replication map; by default there
/// is one copy.
pub fn create_keyspace(v: &Json) -> (plan: Result<Query, Failure>)
    ensures
        plan_view(plan) == create_keyspace_query(v@),
{
    match str_field(v, "name") {
        Ok(name) => {
            let replication: &str = match opt_str(v, "replication") {
                Some(s) => s,
                None => "{'class': 'SimpleStrategy', 'replication_factor': 1}",
            };
            let mut cql: String = "CREATE KEYSPACE IF NOT EXISTS ".to_owned();
            cql.append(name);
            cql.append(" WITH replication = ");
            cql.append(replication);
            Ok(Query { cql, answer: Answer::Done })
        },
        Err(e) => Err(e),
    }
}

/// Drops a keyspace.
pub fn drop_keyspace(v: &Json) -> (plan: Result<Query, Failure>)
    ensures
        plan_view(plan) == named_query(
            v@,
            "DROP KEYSPACE IF EXISTS "@,
            "name"@,
            Answer::Done,
        ),
{
    run_named(v, "DROP KEYSPACE IF EXISTS ", "name", Answer::Done)
}

/// The statement that creates a table.
pub open spec fn create_table_cql(
    name: Seq<char>,
    columns: Seq<char>,
    primary_key: Seq<char>,
) -> Seq<char> {
    "CREATE TABLE IF NOT EXISTS "@ + name + " ("@ + columns + ", PRIMARY KEY ("@ + primary_key
        + "))"@
}

/// What `create_table` asks for: the statement under `cql`, else one made of
/// `name`, `columns` and `primary_key`.
pub open spec fn create_table_query(v: JsonView) -> Result<QueryView, FailureView> {
    match json_str_at(v, "cql"@) {
        Some(cql) => Ok(QueryView { cql, answer: Answer::Done }),
        None => match required(v, "name"@) {
            Ok(name) => match required(v, "columns"@) {
                Ok(columns) => match required(v, "primary_key"@) {
                    Ok(primary_key) => Ok(
                        QueryView {
                            cql: create_table_cql(name, columns, primary_key),
                            answer: Answer::Done,
                        },
                    ),
                    Err(e) => Err(e),
                },
                Err(e) => Err(e),
            },
            Err(e) => Err(e),
        },
    }
}

/// Creates a table. Takes a full statement under `cql`, or `name`, `columns`
/// (`"col type, ..."`) and `primary_key` (`"(pk)"` or `"col"`).
pub fn create_table(v: &Json) -> (plan: Result<Query, Failure>)
    ensures
        plan_view(plan) == create_table_query(v@),
{
    if let Some(cql) = opt_str(v, "cql") {
        return Ok(Query { cql: cql.to_owned(), answer: Answer::Done });
    }
    let name: &str = match str_field(v, "name") {
        Ok(s) => s,
        Err(e) => return Err(e),
    };
    let columns: &str = match str_field(v, "columns") {
        Ok(s) => s,
        Err(e) => return Err(e),
    };
    let primary_key: &str = match str_field(v, "primary_key") {
        Ok(s) => s,
        Err(e) => return Err(e),
    };
    let mut cql: String = "CREATE TABLE IF NOT EXISTS ".to_owned();
    cql.append(name);
    cql.append(" (");
    cql.append(columns);
    cql.append(", PRIMARY KEY (");
    cql.append(primary_key);
    cql.append("))");
    Ok(Query { cql, answer: Answer::Done })
}

/// Drops a table.
pub fn drop_table(v: &Json) -> (plan: Result<Query, Failure>)
    ensures
        plan_view(plan) == named_query(v@, "DROP TABLE IF EXISTS "@, "table"@, Answer::Done),
{
    run_named(v, "DROP TABLE IF EXISTS ", "table", Answer::Done)
}

/// Empties a table.
pub fn truncate(v: &Json) -> (plan: Result<Query, Failure>)
    ensures
        plan_view(plan) == named_query(v@, "TRUNCATE "@, "table"@, Answer::Done),
{
    run_named(v, "TRUNCATE ", "table", Answer::Done)
}

// ── laws ────────────────────────────────────────────────────────────────────

/// CQL reads the keyspace out of the statement that lists its tables, whatever
/// characters its name has: the literal begins at the statement's first quote and
/// ends with the statement.
pub proof fn law_tables_statement_names_the_keyspace(keyspace: Seq<char>)
    ensures
        ({
            let words = "SELECT table_name FROM system_schema.tables WHERE keyspace_name = "@;
            &&& !words.contains('\'')
            &&& tables_cql(keyspace)[words.len() as int] == '\''
            &&& read_quoted(tables_cql(keyspace), words.len() as int + 1, '\'') == Some(
                (keyspace, tables_cql(keyspace).len() as int),
            )
        }),
{
    let words = "SELECT table_name FROM system_schema.tables WHERE keyspace_name = "@;
    reveal_strlit("SELECT table_name FROM system_schema.tables WHERE keyspace_name = ");
    reveal_strlit("SELECT table_name FROM system_schema.tables WHERE keyspace_name = '");
    reveal_strlit("'");
    assert("SELECT table_name FROM system_schema.tables WHERE keyspace_name = '"@ =~= words
        + seq!['\'']);
    assert(tables_cql(keyspace) =~= words + quoted(keyspace, '\'') + seq![]);
    law_escaped_text_reads_back(words, keyspace, seq![], '\'');
}

/// CQL reads keyspace and table out of the statement that describes a table's
/// columns, whatever characters their names have.
pub proof fn law_columns_statement_names_keyspace_and_table(keyspace: Seq<char>, table: Seq<char>)
    ensures
        ({
            let words =
                "SELECT column_name, type, kind FROM system_schema.columns WHERE keyspace_name = "@;
            let between = " AND table_name = "@;
            let first = words.len() as int;
            let second = first + quoted(keyspace, '\'').len() + between.len();
            &&& read_quoted(columns_cql(keyspace, table), first + 1, '\'') == Some(
                (keyspace, second - between.len()),
            )
            &&& read_quoted(columns_cql(keyspace, table), second + 1, '\'') == Some(
                (table, columns_cql(keyspace, table).len() as int),
            )
        }),
{
    let words = "SELECT column_name, type, kind FROM system_schema.columns WHERE keyspace_name = "@;
    let between = " AND table_name = "@;
    reveal_strlit("SELECT column_name, type, kind FROM system_schema.columns WHERE keyspace_name = ");
    reveal_strlit("SELECT column_name, type, kind FROM system_schema.columns WHERE keyspace_name = '");
    reveal_strlit(" AND table_name = ");
    reveal_strlit("' AND table_name = '");
    reveal_strlit("'");
    assert("SELECT column_name, type, kind FROM system_schema.columns WHERE keyspace_name = '"@
        =~= words + seq!['\'']);
    assert("' AND table_name = '"@ =~= seq!['\''] + between + seq!['\'']);
    let cql = columns_cql(keyspace, table);
    let before = words + quoted(keyspace, '\'') + between;
    let after = between + quoted(table, '\'');
    assert(cql =~= words + quoted(keyspace, '\'') + after);
    assert(cql =~= before + quoted(table, '\'') + seq![]);
    law_escaped_text_reads_back(words, keyspace, after, '\'');
    law_escaped_text_reads_back(before, table, seq![], '\'');
}

/// A command that lacks a field is refused, and the refusal names the field: the
/// first that is missing, where there are several.
pub proof fn law_a_missing_field_is_named(v: JsonView, key: Seq<char>, words: Seq<char>, answer: Answer)
    ensures
        json_str_at(v, key) is None ==> named_query(v, words, key, answer) == Err::<
            QueryView,
            FailureView,
        >(FailureView::Missing(key)),
        json_str_at(v, "cql"@) is None ==> given_query(v, answer) == Err::<QueryView, FailureView>(
            FailureView::Missing("cql"@),
        ),
        json_str_at(v, "keyspace"@) is None ==> tables_query(v) == Err::<QueryView, FailureView>(
            FailureView::Missing("keyspace"@),
        ),
        json_str_at(v, "keyspace"@) is None ==> columns_query(v) == Err::<QueryView, FailureView>(
            FailureView::Missing("keyspace"@),
        ),
        json_str_at(v, "keyspace"@) is Some && json_str_at(v, "table"@) is None ==> columns_query(v)
            == Err::<QueryView, FailureView>(FailureView::Missing("table"@)),
        json_str_at(v, "name"@) is None ==> create_keyspace_query(v) == Err::<
            QueryView,
            FailureView,
        >(FailureView::Missing("name"@)),
        json_str_at(v, "cql"@) is None && json_str_at(v, "name"@) is None ==> create_table_query(v)
            == Err::<QueryView, FailureView>(FailureView::Missing("name"@)),
        json_str_at(v, "cql"@) is None && json_str_at(v, "name"@) is Some && json_str_at(
            v,
            "columns"@,
        ) is None ==> create_table_query(v) == Err::<QueryView, FailureView>(
            FailureView::Missing("columns"@),
        ),
        json_str_at(v, "cql"@) is None && json_str_at(v, "name"@) is Some && json_str_at(
            v,
            "columns"@,
        ) is Some && json_str_at(v, "primary_key"@) is None ==> create_table_query(v) == Err::<
            QueryView,
            FailureView,
        >(FailureView::Missing("primary_key"@)),
{
}

/// A full statement under `cql` is what creates the table: the other fields are not
/// looked at.
pub proof fn law_full_statement_creates_the_table(v: JsonView, w: JsonView)
    requires
        json_str_at(v, "cql"@) is Some,
        json_str_at(v, "cql"@) == json_str_at(w, "cql"@),
    ensures
        create_table_query(v) == create_table_query(w),
        create_table_query(v) == given_query(v, Answer::Done),
{
}

/// A field that is there is taken as it is, the empty text included; one that is not,
/// or is no string, is named as missing.
pub proof fn law_fields_are_taken_as_given(v: JsonView, key: Seq<char>, s: Seq<char>)
    ensures
        json_get(v, key) == Some(JsonView::String(s)) ==> required(v, key) == Ok::<
            Seq<char>,
            FailureView,
        >(s),
        !(json_get(v, key) matches Some(JsonView::String(_))) ==> required(v, key) == Err::<
            Seq<char>,
            FailureView,
        >(FailureView::Missing(key)),
{
}

/// The statement that counts, drops or empties holds the name as it is given, behind
/// its words, whatever other options there are, `keyspace` among them.
pub proof fn law_named_statements_hold_the_name_as_given(
    v: JsonView,
    name: Seq<char>,
    words: Seq<char>,
    key: Seq<char>,
    answer: Answer,
)
    requires
        json_get(v, key) == Some(JsonView::String(name)),
    ensures
        named_query(v, words, key, answer) == Ok::<QueryView, FailureView>(
            QueryView { cql: words + name, answer },
        ),
        key == "table"@ ==> named_query(v, "SELECT count(*) AS c FROM "@, "table"@, Answer::Count)
            == Ok::<QueryView, FailureView>(
            QueryView { cql: "SELECT count(*) AS c FROM "@ + name, answer: Answer::Count },
        ),
        key == "table"@ ==> named_query(v, "DROP TABLE IF EXISTS "@, "table"@, Answer::Done) == Ok::<
            QueryView,
            FailureView,
        >(QueryView { cql: "DROP TABLE IF EXISTS "@ + name, answer: Answer::Done }),
        key == "table"@ ==> named_query(v, "TRUNCATE "@, "table"@, Answer::Done) == Ok::<
            QueryView,
            FailureView,
        >(QueryView { cql: "TRUNCATE "@ + name, answer: Answer::Done }),
        key == "name"@ ==> named_query(v, "DROP KEYSPACE IF EXISTS "@, "name"@, Answer::Done)
            == Ok::<QueryView, FailureView>(
            QueryView { cql: "DROP KEYSPACE IF EXISTS "@ + name, answer: Answer::Done },
        ),
{
}

/// Options that give the same name ask for the same statement.
pub proof fn law_named_statements_depend_on_the_name_only(
    v: JsonView,
    w: JsonView,
    words: Seq<char>,
    key: Seq<char>,
    answer: Answer,
)
    requires
        json_get(v, key) == json_get(w, key),
    ensures
        named_query(v, words, key, answer) == named_query(w, words, key, answer),
{
}

/// A statement under `cql` is run as it is given, whatever other options there are. A
/// raw statement is answered by its rows, unless `rows` is `false`.
pub proof fn law_given_statements_are_run_as_given(v: JsonView, cql: Seq<char>, answer: Answer)
    requires
        json_get(v, "cql"@) == Some(JsonView::String(cql)),
    ensures
        given_query(v, answer) == Ok::<QueryView, FailureView>(QueryView { cql, answer }),
        create_table_query(v) == Ok::<QueryView, FailureView>(
            QueryView { cql, answer: Answer::Done },
        ),
        json_get(v, "rows"@) == Some(JsonView::Bool(false)) ==> raw_answer(v) == Answer::Done,
        json_get(v, "rows"@) != Some(JsonView::Bool(false)) ==> raw_answer(v) == Answer::Rows,
{
}

/// The statement that creates a table is made of its words, the name, and in brackets
/// the columns and `PRIMARY KEY` with the primary key as it is given between one pair of
/// brackets of its own, whatever characters these have and whatever other options
/// there are.
pub proof fn law_tables_are_created_as_given(
    v: JsonView,
    name: Seq<char>,
    columns: Seq<char>,
    primary_key: Seq<char>,
)
    requires
        !(json_get(v, "cql"@) matches Some(JsonView::String(_))),
        json_get(v, "name"@) == Some(JsonView::String(name)),
        json_get(v, "columns"@) == Some(JsonView::String(columns)),
        json_get(v, "primary_key"@) == Some(JsonView::String(primary_key)),
    ensures
        create_table_query(v) == Ok::<QueryView, FailureView>(
            QueryView {
                cql: "CREATE TABLE IF NOT EXISTS "@ + name + " ("@ + columns + ", PRIMARY KEY ("@
                    + primary_key + "))"@,
                answer: Answer::Done,
            },
        ),
        create_table_cql(name, columns, primary_key) == "CREATE TABLE IF NOT EXISTS "@ + name
            + " ("@ + columns + ", PRIMARY KEY ("@ + primary_key + "))"@,
{
}

/// The statement that creates a keyspace is made of its words, the name and the
/// replication, each as it is given. Where no replication is given there is one copy.
pub proof fn law_keyspaces_are_created_as_given(
    v: JsonView,
    name: Seq<char>,
    replication: Seq<char>,
)
    requires
        json_get(v, "name"@) == Some(JsonView::String(name)),
    ensures
        json_get(v, "replication"@) == Some(JsonView::String(replication)) ==> create_keyspace_query(
            v,
        ) == Ok::<QueryView, FailureView>(
            QueryView {
                cql: "CREATE KEYSPACE IF NOT EXISTS "@ + name + " WITH replication = "@
                    + replication,
                answer: Answer::Done,
            },
        ),
        !(json_get(v, "replication"@) matches Some(JsonView::String(_))) ==> create_keyspace_query(
            v,
        ) == Ok::<QueryView, FailureView>(
            QueryView {
                cql: "CREATE KEYSPACE IF NOT EXISTS "@ + name + " WITH replication = "@
                    + "{'class': 'SimpleStrategy', 'replication_factor': 1}"@,
                answer: Answer::Done,
            },
        ),
{
}

/// The tables of a keyspace are asked for by a statement that is its words followed by
/// a literal, to the statement's end, which CQL reads as the keyspace.
pub proof fn law_tables_are_asked_for_by_keyspace(v: JsonView, keyspace: Seq<char>)
    requires
        json_get(v, "keyspace"@) == Some(JsonView::String(keyspace)),
    ensures
        ({
            let words = "SELECT table_name FROM system_schema.tables WHERE keyspace_name = "@;
            tables_query(v) matches Ok(query) && query.answer == Answer::TableNames
                && query.cql.len() > words.len() && query.cql.take(words.len() as int) == words
                && query.cql[words.len() as int] == '\'' && read_quoted(
                query.cql,
                words.len() as int + 1,
                '\'',
            ) == Some((keyspace, query.cql.len() as int))
        }),
{
    let words = "SELECT table_name FROM system_schema.tables WHERE keyspace_name = "@;
    reveal_strlit("SELECT table_name FROM system_schema.tables WHERE keyspace_name = ");
    reveal_strlit("SELECT table_name FROM system_schema.tables WHERE keyspace_name = '");
    law_tables_statement_names_the_keyspace(keyspace);
    assert(tables_cql(keyspace).take(words.len() as int) =~= words);
}

/// The columns of a table are asked for by a statement that is its words, a literal
/// which CQL reads as the keyspace, more words, and a literal to the statement's end
/// which CQL reads as the table.
pub proof fn law_columns_are_asked_for_by_keyspace_and_table(
    v: JsonView,
    keyspace: Seq<char>,
    table: Seq<char>,
)
    requires
        json_get(v, "keyspace"@) == Some(JsonView::String(keyspace)),
        json_get(v, "table"@) == Some(JsonView::String(table)),
    ensures
        ({
            let words =
                "SELECT column_name, type, kind FROM system_schema.columns WHERE keyspace_name = "@;
            let between = " AND table_name = "@;
            columns_query(v) matches Ok(query) && query.answer == Answer::Rows && query.cql.len()
                > words.len() && query.cql.take(words.len() as int) == words
                && query.cql[words.len() as int] == '\'' && (read_quoted(
                query.cql,
                words.len() as int + 1,
                '\'',
            ) matches Some((read, end)) && read == keyspace && 0 <= end && end + between.len()
                < query.cql.len() && query.cql.subrange(end, end + between.len()) == between
                && query.cql[end + between.len()] == '\'' && read_quoted(
                query.cql,
                end + between.len() + 1,
                '\'',
            ) == Some((table, query.cql.len() as int)))
        }),
{
    let words = "SELECT column_name, type, kind FROM system_schema.columns WHERE keyspace_name = "@;
    let between = " AND table_name = "@;
    reveal_strlit("SELECT column_name, type, kind FROM system_schema.columns WHERE keyspace_name = ");
    reveal_strlit("SELECT column_name, type, kind FROM system_schema.columns WHERE keyspace_name = '");
    reveal_strlit(" AND table_name = ");
    reveal_strlit("' AND table_name = '");
    reveal_strlit("'");
    law_columns_statement_names_keyspace_and_table(keyspace, table);
    let cql = columns_cql(keyspace, table);
    let end = (words.len() + quoted(keyspace, '\'').len()) as int;
    assert(cql.take(words.len() as int) =~= words);
    assert(cql.subrange(end, end + between.len()) =~= between);
}

/// The commands without a field ask for fixed statements.
pub proof fn law_fixed_statements(answer: Answer)
    ensures
        version_query(answer) == (QueryView {
            cql: "SELECT release_version FROM system.local"@,
            answer,
        }),
        keyspaces_query() == (QueryView {
            cql: "SELECT keyspace_name FROM system_schema.keyspaces"@,
            answer: Answer::KeyspaceNames,
        }),
{
}

/// What a command asks for is seen with its statement and its answer, or its failure.
pub proof fn law_plans_are_seen_whole(query: Query, failure: Failure)
    ensures
        plan_view(Ok(query)) == Ok::<QueryView, FailureView>(
            QueryView { cql: query.cql@, answer: query.answer },
        ),
        plan_view(Err(failure)) == Err::<QueryView, FailureView>(failure@),
{
}

}
