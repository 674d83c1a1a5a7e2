//! ScyllaDB / Cassandra client: CQL queries, DDL and schema, JSON in and JSON out.
//!
//! A request comes in as the JSON text of an options dictionary, its reply goes
//! out as JSON text. This library holds everything between the two that does not
//! touch the network:
//!
//! - [`exports`] has one function for each command, from a request's text to its
//!   reply, or to the [`session::Job`] that the cluster has to run;
//! - [`commands`] builds the CQL statement of a command from its options, and
//!   [`answers`] makes the answer from the statement's outcome;
//! - [`helpers`] are the commands that need no cluster;
//! - [`session`] leads a job step by step through connecting, selecting the
//!   keyspace, keeping the session and running the statement; [`cache`] holds the
//!   sessions that are open, and [`conn`] resolves what a session is opened with;
//! - [`rows`] turns CQL values and rows into JSON;
//! - [`cql`] quotes and formats CQL text;
//! - [`reply`] reads requests and writes replies, on top of [`json`].
//!
//! Queries are unparameterized CQL: untrusted values are interpolated through
//! [`cql::escape_string`], which CQL reads back as the value itself
//! (`cql::law_escaped_text_reads_back`).
pub mod answers;
pub mod cache;
pub mod commands;
pub mod conn;
pub mod cql;
pub mod exports;
pub mod helpers;
pub mod json;
pub mod reply;
pub mod rows;
pub mod session;
pub mod text;
