//! The commands, from the JSON text of a request on.
//!
//! A command that needs no cluster gives the JSON text of its reply. A command that
//! needs one gives the [`Job`] to run, or at once the reply to a request that is
//! refused. Text that is missing, or is no JSON, counts as `null`. `env` is the
//! environment's comma-separated list of contact points, used where the options
//! give none.
#![allow(non_snake_case)]

use crate::commands::{
    self, create_keyspace_query, create_table_query, columns_query, given_query, keyspaces_query,
    named_query, plan_view, raw_answer, tables_query, version_query, Answer, Query, QueryView,
};
use crate::conn::{
    law_credentials_and_keyspace_are_taken_as_given, optional_text, resolve_conn, resolved_conn,
};
use crate::helpers::{
    self, contact_points_answer, escape_answer, format_in_list_answer, format_value_answer,
    quote_answer, valid_identifier_answer,
};
use crate::json::codec::{encoded, written};
use crate::json::{json_get, json_single, Json, JsonView};
use crate::reply::{
    args_json, args_view, error_text, read_args, reply_json, reply_text, respond, Failure, FailureView,
};
use crate::session::{
    begun, law_sessions_are_opened_with_the_given_credentials, ActionView, Job, JobView,
    ProgressView,
};
use vstd::prelude::*;

verus! {

/// How a command that needs the cluster starts: with a job to run, or with the
/// reply to a request that is refused.
#[derive(Debug, PartialEq)]
pub enum Start {
    Reply(String),
    Run(Job),
}

/// The view of a [`Start`].
pub enum StartView {
    Reply(Seq<char>),
    Run(JobView),
}

impl View for Start {
    type V = StartView;

    open spec fn view(&self) -> StartView {
        match self {
            Start::Reply(text) => StartView::Reply(text@),
            Start::Run(job) => StartView::Run(job@),
        }
    }
}

/// How a command starts that asks for this statement, or refuses the request.
pub open spec fn started(
    opts: JsonView,
    env: Option<Seq<char>>,
    plan: Result<QueryView, FailureView>,
) -> StartView {
    match plan {
        Ok(query) => StartView::Run(JobView { conn: resolved_conn(opts, env), query }),
        Err(e) => StartView::Reply(reply_text(Err(e))),
    }
}

/// Whether the reply to a request that is refused is the written text of its error.
pub open spec fn refusal_is_written(start: StartView, plan: Result<QueryView, FailureView>) -> bool {
    plan matches Err(e) ==> start matches StartView::Reply(text) && written(
        reply_json(Err(e)),
        text,
    )
}

/// Starts a command that asks for this statement, or refuses the request.
pub fn start(opts: &Json, env: Option<&str>, plan: Result<Query, Failure>) -> (start: Start)
    ensures
        start@ == started(opts@, optional_text(env), plan_view(plan)),
        refusal_is_written(start@, plan_view(plan)),
{
    match plan {
        Ok(query) => Start::Run(Job { conn: resolve_conn(opts, env), query }),
        Err(e) => Start::Reply(respond(Err(e))),
    }
}

// ── version and liveness ────────────────────────────────────────────────────

/// The package's version. The request is not looked at.
pub fn scylla__version(args: Option<&[u8]>, package_version: &str) -> (reply: String)
    ensures
        reply@ == reply_text(
            Ok(json_single("version"@, JsonView::String(package_version@))),
        ),
        written(reply_json(Ok(json_single("version"@, JsonView::String(package_version@)))), reply@),
{
    respond(Ok(helpers::version(package_version)))
}

/// Whether the cluster answers.
pub fn scylla__ping(args: Option<&[u8]>, env: Option<&str>) -> (start: Start)
    ensures
        start@ == started(
            args_json(args_view(args)),
            optional_text(env),
            Ok(version_query(Answer::Alive)),
        ),
{
    let v: Json = read_args(args);
    self::start(&v, env, Ok(commands::ping()))
}

/// The server's release version.
pub fn scylla__server_version(args: Option<&[u8]>, env: Option<&str>) -> (start: Start)
    ensures
        start@ == started(
            args_json(args_view(args)),
            optional_text(env),
            Ok(version_query(Answer::ServerVersion)),
        ),
{
    let v: Json = read_args(args);
    self::start(&v, env, Ok(commands::server_version()))
}

// ── query ─────────────────────────────────────────────────────────────────────

/// Runs a SELECT; answers with the array of row objects.
pub fn scylla__query(args: Option<&[u8]>, env: Option<&str>) -> (start: Start)
    ensures
        start@ == started(
            args_json(args_view(args)),
            optional_text(env),
            given_query(args_json(args_view(args)), Answer::Rows),
        ),
        refusal_is_written(
            start@,
            given_query(args_json(args_view(args)), Answer::Rows),
        ),
{
    let v: Json = read_args(args);
    self::start(&v, env, commands::run_given(&v, Answer::Rows))
}

/// Runs a SELECT; answers with the first row object, or null.
pub fn scylla__query_row(args: Option<&[u8]>, env: Option<&str>) -> (start: Start)
    ensures
        start@ == started(
            args_json(args_view(args)),
            optional_text(env),
            given_query(args_json(args_view(args)), Answer::FirstRow),
        ),
        refusal_is_written(
            start@,
            given_query(args_json(args_view(args)), Answer::FirstRow),
        ),
{
    let v: Json = read_args(args);
    self::start(&v, env, commands::run_given(&v, Answer::FirstRow))
}

/// Runs a SELECT; answers with the first column of the first row.
pub fn scylla__query_value(args: Option<&[u8]>, env: Option<&str>) -> (start: Start)
    ensures
        start@ == started(
            args_json(args_view(args)),
            optional_text(env),
            given_query(args_json(args_view(args)), Answer::FirstValue),
        ),
        refusal_is_written(
            start@,
            given_query(args_json(args_view(args)), Answer::FirstValue),
        ),
{
    let v: Json = read_args(args);
    self::start(&v, env, commands::run_given(&v, Answer::FirstValue))
}

/// Runs a statement that returns no rows.
pub fn scylla__execute(args: Option<&[u8]>, env: Option<&str>) -> (start: Start)
    ensures
        start@ == started(
            args_json(args_view(args)),
            optional_text(env),
            given_query(args_json(args_view(args)), Answer::Done),
        ),
        refusal_is_written(
            start@,
            given_query(args_json(args_view(args)), Answer::Done),
        ),
{
    let v: Json = read_args(args);
    self::start(&v, env, commands::run_given(&v, Answer::Done))
}

/// Runs any statement under `cql`. `rows` (default true) answers with the rows;
/// `false` is for a statement without rows.
pub fn scylla__raw(args: Option<&[u8]>, env: Option<&str>) -> (start: Start)
    ensures
        start@ == started(
            args_json(args_view(args)),
            optional_text(env),
            given_query(args_json(args_view(args)), raw_answer(args_json(args_view(args)))),
        ),
        refusal_is_written(
            start@,
            given_query(args_json(args_view(args)), raw_answer(args_json(args_view(args)))),
        ),
{
    let v: Json = read_args(args);
    self::start(&v, env, commands::raw(&v))
}

// ── schema introspection ──────────────────────────────────────────────────────

/// The names of the keyspaces.
pub fn scylla__keyspaces(args: Option<&[u8]>, env: Option<&str>) -> (start: Start)
    ensures
        start@ == started(
            args_json(args_view(args)),
            optional_text(env),
            Ok(keyspaces_query()),
        ),
{
    let v: Json = read_args(args);
    self::start(&v, env, Ok(commands::keyspaces()))
}

/// The names of a keyspace's tables.
pub fn scylla__tables(args: Option<&[u8]>, env: Option<&str>) -> (start: Start)
    ensures
        start@ == started(
            args_json(args_view(args)),
            optional_text(env),
            tables_query(args_json(args_view(args))),
        ),
        refusal_is_written(
            start@,
            tables_query(args_json(args_view(args))),
        ),
{
    let v: Json = read_args(args);
    self::start(&v, env, commands::tables(&v))
}

/// A table's columns, with their types and kinds.
pub fn scylla__columns(args: Option<&[u8]>, env: Option<&str>) -> (start: Start)
    ensures
        start@ == started(
            args_json(args_view(args)),
            optional_text(env),
            columns_query(args_json(args_view(args))),
        ),
        refusal_is_written(
            start@,
            columns_query(args_json(args_view(args))),
        ),
{
    let v: Json = read_args(args);
    self::start(&v, env, commands::columns(&v))
}

/// The number of rows of a table.
pub fn scylla__count(args: Option<&[u8]>, env: Option<&str>) -> (start: Start)
    ensures
        start@ == started(
            args_json(args_view(args)),
            optional_text(env),
            named_query(
                args_json(args_view(args)),
                "SELECT count(*) AS c FROM "@,
                "table"@,
                Answer::Count,
            ),
        ),
        refusal_is_written(
            start@,
            named_query(
                args_json(args_view(args)),
                "SELECT count(*) AS c FROM "@,
                "table"@,
                Answer::Count,
            ),
        ),
{
    let v: Json = read_args(args);
    self::start(&v, env, commands::count(&v))
}

// ── definition ────────────────────────────────────────────────────────────────

/// Creates a keyspace. `replication` is the CQL replication map; by default there
/// is one copy.
pub fn scylla__create_keyspace(args: Option<&[u8]>, env: Option<&str>) -> (start: Start)
    ensures
        start@ == started(
            args_json(args_view(args)),
            optional_text(env),
            create_keyspace_query(args_json(args_view(args))),
        ),
        refusal_is_written(
            start@,
            create_keyspace_query(args_json(args_view(args))),
        ),
{
    let v: Json = read_args(args);
    self::start(&v, env, commands::create_keyspace(&v))
}

/// Drops a keyspace.
pub fn scylla__drop_keyspace(args: Option<&[u8]>, env: Option<&str>) -> (start: Start)
    ensures
        start@ == started(
            args_json(args_view(args)),
            optional_text(env),
            named_query(
                args_json(args_view(args)),
                "DROP KEYSPACE IF EXISTS "@,
                "name"@,
                Answer::Done,
            ),
        ),
        refusal_is_written(
            start@,
            named_query(
                args_json(args_view(args)),
                "DROP KEYSPACE IF EXISTS "@,
                "name"@,
                Answer::Done,
            ),
        ),
{
    let v: Json = read_args(args);
    self::start(&v, env, commands::drop_keyspace(&v))
}

/// Creates a table, by a full statement under `cql`, or by `name`, `columns` and
/// `primary_key`.
pub fn scylla__create_table(args: Option<&[u8]>, env: Option<&str>) -> (start: Start)
    ensures
        start@ == started(
            args_json(args_view(args)),
            optional_text(env),
            create_table_query(args_json(args_view(args))),
        ),
        refusal_is_written(
            start@,
            create_table_query(args_json(args_view(args))),
        ),
{
    let v: Json = read_args(args);
    self::start(&v, env, commands::create_table(&v))
}

/// Drops a table.
pub fn scylla__drop_table(args: Option<&[u8]>, env: Option<&str>) -> (start: Start)
    ensures
        start@ == started(
            args_json(args_view(args)),
            optional_text(env),
            named_query(
                args_json(args_view(args)),
                "DROP TABLE IF EXISTS "@,
                "table"@,
                Answer::Done,
            ),
        ),
        refusal_is_written(
            start@,
            named_query(
                args_json(args_view(args)),
                "DROP TABLE IF EXISTS "@,
                "table"@,
                Answer::Done,
            ),
        ),
{
    let v: Json = read_args(args);
    self::start(&v, env, commands::drop_table(&v))
}

/// Empties a table.
pub fn scylla__truncate(args: Option<&[u8]>, env: Option<&str>) -> (start: Start)
    ensures
        start@ == started(
            args_json(args_view(args)),
            optional_text(env),
            named_query(
                args_json(args_view(args)),
                "TRUNCATE "@,
                "table"@,
                Answer::Done,
            ),
        ),
        refusal_is_written(
            start@,
            named_query(
                args_json(args_view(args)),
                "TRUNCATE "@,
                "table"@,
                Answer::Done,
            ),
        ),
{
    let v: Json = read_args(args);
    self::start(&v, env, commands::truncate(&v))
}

// ── helpers that need no cluster ────────────────────────────────────────────

/// Escapes the `value` for a single-quoted CQL literal.
pub fn scylla__escape_string(args: Option<&[u8]>) -> (reply: String)
    ensures
        reply@ == reply_text(escape_answer(args_json(args_view(args)))),
        written(reply_json(escape_answer(args_json(args_view(args)))), reply@),
{
    let v: Json = read_args(args);
    respond(helpers::escape(&v))
}

/// Double-quotes the `value` as a CQL identifier, forcing case sensitivity.
pub fn scylla__quote_identifier(args: Option<&[u8]>) -> (reply: String)
    ensures
        reply@ == reply_text(quote_answer(args_json(args_view(args)), '"')),
        written(reply_json(quote_answer(args_json(args_view(args)), '"')), reply@),
{
    let v: Json = read_args(args);
    respond(helpers::identifier(&v))
}

/// The contact points that the options resolve to, each `host:port`.
pub fn scylla__contact_points(args: Option<&[u8]>, env: Option<&str>) -> (reply: String)
    ensures
        reply@ == reply_text(
            Ok(contact_points_answer(args_json(args_view(args)), optional_text(env))),
        ),
        written(reply_json(Ok(contact_points_answer(args_json(args_view(args)), optional_text(env)))), reply@),
{
    let v: Json = read_args(args);
    respond(Ok(helpers::contact_points(&v, env)))
}

/// Wraps the `value` as a single-quoted CQL literal.
pub fn scylla__quote_literal(args: Option<&[u8]>) -> (reply: String)
    ensures
        reply@ == reply_text(quote_answer(args_json(args_view(args)), '\'')),
        written(reply_json(quote_answer(args_json(args_view(args)), '\'')), reply@),
{
    let v: Json = read_args(args);
    respond(helpers::literal(&v))
}

/// Formats the document under `value` as a CQL literal.
pub fn scylla__format_value(args: Option<&[u8]>) -> (reply: String)
    ensures
        reply@ == reply_text(format_value_answer(args_json(args_view(args)))),
        written(reply_json(format_value_answer(args_json(args_view(args)))), reply@),
{
    let v: Json = read_args(args);
    respond(helpers::formatted_value(&v))
}

/// Renders the array under `values` into the list of an `IN` restriction.
pub fn scylla__format_in_list(args: Option<&[u8]>) -> (reply: String)
    ensures
        reply@ == reply_text(format_in_list_answer(args_json(args_view(args)))),
        written(reply_json(format_in_list_answer(args_json(args_view(args)))), reply@),
{
    let v: Json = read_args(args);
    respond(helpers::formatted_in_list(&v))
}

/// Whether the `value` is a valid unquoted CQL identifier.
pub fn scylla__valid_identifier(args: Option<&[u8]>) -> (reply: String)
    ensures
        reply@ == reply_text(valid_identifier_answer(args_json(args_view(args)))),
        written(reply_json(valid_identifier_answer(args_json(args_view(args)))), reply@),
{
    let v: Json = read_args(args);
    respond(helpers::identifier_check(&v))
}

// ── laws ────────────────────────────────────────────────────────────────────

/// A command that asks for a statement gets a job with that statement, on the
/// connection that its options and the environment resolve to. A request that is
/// refused is replied to at once, with the reason.
pub proof fn law_commands_run_on_their_own_connection(
    opts: JsonView,
    env: Option<Seq<char>>,
    query: QueryView,
    e: FailureView,
    text: String,
    job: Job,
)
    ensures
        started(opts, env, Ok(query)) matches StartView::Run(started_job) && started_job.query
            == query && started_job.conn == resolved_conn(opts, env),
        started(opts, env, Err(e)) == StartView::Reply(
            encoded(JsonView::Object(seq![("error"@, JsonView::String(error_text(e)))])),
        ),
        Start::Reply(text)@ == StartView::Reply(text@),
        Start::Run(job)@ == StartView::Run(job@),
{
}

/// Whatever a command asks for, user, password and keyspace of its options reach the
/// connection as they are given.
pub proof fn law_given_credentials_reach_the_connection(
    opts: JsonView,
    env: Option<Seq<char>>,
    query: QueryView,
    user: Seq<char>,
    password: Seq<char>,
)
    requires
        json_get(opts, "username"@) == Some(JsonView::String(user)),
        json_get(opts, "password"@) == Some(JsonView::String(password)),
        user.len() > 0 || password.len() > 0,
    ensures
        started(opts, env, Ok(query)) matches StartView::Run(job) && (begun(
            job,
            false,
        ) matches ProgressView::Next(_, ActionView::Connect { nodes, credentials }) && nodes
            == resolved_conn(opts, env).nodes && credentials == Some((user, password))),
{
    law_credentials_and_keyspace_are_taken_as_given(opts, env, user);
    law_credentials_and_keyspace_are_taken_as_given(opts, env, password);
    law_sessions_are_opened_with_the_given_credentials(
        JobView { conn: resolved_conn(opts, env), query },
    );
}

}
