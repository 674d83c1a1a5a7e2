//! Commands that need no cluster: quoting, formatting and resolving.
use crate::commands::{required, str_field};
use crate::conn::{optional_text, resolve_conn, resolved_conn, resolved_nodes, string_views};
use crate::cql::{
    doubled, escape_string, format_in_list, format_value, identifier_shape, in_list_text,
    law_list_literals_are_made_of_their_items, law_quoted_text_is_delimited,
    law_string_literals_read_back, literal_text, quote_identifier, quote_literal, quoted,
    read_quoted, valid_identifier,
};
use crate::answers::value_json;
use crate::json::codec::{float_free, nested, parsed, written};
use crate::json::{json_array, json_get, json_single, json_views, lemma_array_view, Json, JsonView};
use crate::reply::{outcome_view, reply_json, Failure, FailureView};
use vstd::prelude::*;
use vstd::string::*;
use vstd::utf8::encode_utf8;

verus! {

/// The answer with the package's version.
pub fn version(package_version: &str) -> (answer: Json)
    ensures
        answer@ == json_single("version"@, JsonView::String(package_version@)),
{
    Json::single("version", Json::String(package_version.to_owned()))
}

/// The `value` escaped for a single-quoted CQL literal.
pub open spec fn escape_answer(v: JsonView) -> Result<JsonView, FailureView> {
    match required(v, "value"@) {
        Ok(s) => Ok(value_json(JsonView::String(doubled(s, '\'')))),
        Err(e) => Err(e),
    }
}

/// Escapes the `value` for a single-quoted CQL literal.
pub fn escape(v: &Json) -> (answer: Result<Json, Failure>)
    ensures
        outcome_view(answer) == escape_answer(v@),
{
    match str_field(v, "value") {
        Ok(s) => Ok(Json::single("value", Json::String(escape_string(s)))),
        Err(e) => Err(e),
    }
}

/// The `value` as a quoted text.
pub open spec fn quote_answer(v: JsonView, quote: char) -> Result<JsonView, FailureView> {
    match required(v, "value"@) {
        Ok(s) => Ok(value_json(JsonView::String(quoted(s, quote)))),
        Err(e) => Err(e),
    }
}

/// Double-quotes the `value` as a CQL identifier.
pub fn identifier(v: &Json) -> (answer: Result<Json, Failure>)
    ensures
        outcome_view(answer) == quote_answer(v@, '"'),
{
    match str_field(v, "value") {
        Ok(s) => Ok(Json::single("value", Json::String(quote_identifier(s)))),
        Err(e) => Err(e),
    }
}

/// Wraps the `value` as a single-quoted CQL literal.
pub fn literal(v: &Json) -> (answer: Result<Json, Failure>)
    ensures
        outcome_view(answer) == quote_answer(v@, '\''),
{
    match str_field(v, "value") {
        Ok(s) => Ok(Json::single("value", Json::String(quote_literal(s)))),
        Err(e) => Err(e),
    }
}

/// The document under `value` as a CQL literal.
pub open spec fn format_value_answer(v: JsonView) -> Result<JsonView, FailureView> {
    match json_get(v, "value"@) {
        Some(x) => Ok(value_json(JsonView::String(literal_text(x)))),
        None => Err(FailureView::Missing("value"@)),
    }
}

/// Formats the document under `value` as a CQL literal.
pub fn formatted_value(v: &Json) -> (answer: Result<Json, Failure>)
    ensures
        outcome_view(answer) == format_value_answer(v@),
{
    match v.get("value") {
        Some(x) => Ok(Json::single("value", Json::String(format_value(x)))),
        None => Err(Failure::Missing("value".to_owned())),
    }
}

/// The array under `values` as the list of an `IN` restriction.
pub open spec fn format_in_list_answer(v: JsonView) -> Result<JsonView, FailureView> {
    let items = match json_get(v, "values"@) {
        Some(x) => json_array(x),
        None => None,
    };
    match items {
        Some(values) => Ok(value_json(JsonView::String(in_list_text(values)))),
        None => Err(FailureView::Missing("values array"@)),
    }
}

/// Renders the array under `values` into the list of an `IN` restriction.
pub fn formatted_in_list(v: &Json) -> (answer: Result<Json, Failure>)
    ensures
        outcome_view(answer) == format_in_list_answer(v@),
{
    if let Some(x) = v.get("values") {
        if let Some(values) = x.as_array() {
            return Ok(Json::single("value", Json::String(format_in_list(values.as_slice()))));
        }
    }
    Err(Failure::Missing("values array".to_owned()))
}

/// Whether the `value` is a valid unquoted CQL identifier.
pub open spec fn valid_identifier_answer(v: JsonView) -> Result<JsonView, FailureView> {
    match required(v, "value"@) {
        Ok(s) => Ok(json_single("valid"@, JsonView::Bool(identifier_shape(s)))),
        Err(e) => Err(e),
    }
}

/// Tells whether the `value` is a valid unquoted CQL identifier.
pub fn identifier_check(v: &Json) -> (answer: Result<Json, Failure>)
    ensures
        outcome_view(answer) == valid_identifier_answer(v@),
{
    match str_field(v, "value") {
        Ok(s) => Ok(Json::single("valid", Json::Bool(valid_identifier(s)))),
        Err(e) => Err(e),
    }
}

/// The contact points that the options resolve to.
pub open spec fn contact_points_answer(v: JsonView, env: Option<Seq<char>>) -> JsonView {
    value_json(
        JsonView::Array(
            resolved_nodes(v, env).map_values(|s: Seq<char>| JsonView::String(s)),
        ),
    )
}

/// The contact points that the options resolve to, each `host:port`.
pub fn contact_points(v: &Json, env: Option<&str>) -> (answer: Json)
    ensures
        answer@ == contact_points_answer(v@, optional_text(env)),
{
    let nodes: Vec<String> = resolve_conn(v, env).nodes;
    let ghost views = resolved_nodes(v@, optional_text(env));
    let mut values: Vec<Json> = Vec::new();
    let mut i: usize = 0;
    while i < nodes.len()
        invariant
            0 <= i <= nodes@.len(),
            string_views(nodes@) == views,
            values@.len() == i,
            forall|k: int| 0 <= k < i ==> (#[trigger] values@[k])@ == JsonView::String(views[k]),
        decreases nodes@.len() - i,
    {
        values.push(Json::String(nodes[i].clone()));
        i += 1;
    }
    proof {
        lemma_array_view(values);
        assert(json_views(values@) =~= views.map_values(|s: Seq<char>| JsonView::String(s)));
    }
    Json::single("value", Json::Array(values))
}

// ── laws ────────────────────────────────────────────────────────────────────

/// Whether the document is an object of one string or truth value, as most helpers
/// answer.
pub open spec fn simple_answer(v: JsonView) -> bool {
    v matches JsonView::Object(members) && members.len() == 1 && (members[0].1 is String
        || members[0].1 is Bool)
}

/// Every helper but the one for contact points replies with an object of one string
/// or truth value, also where it refuses the request.
pub proof fn law_helpers_reply_simply(v: JsonView, quote: char)
    ensures
        simple_answer(reply_json(escape_answer(v))),
        simple_answer(reply_json(quote_answer(v, quote))),
        simple_answer(reply_json(format_value_answer(v))),
        simple_answer(reply_json(format_in_list_answer(v))),
        simple_answer(reply_json(valid_identifier_answer(v))),
{
}

/// A reply that is an object of one string or truth value is read back from its text
/// as it is, whatever characters it holds.
pub proof fn law_simple_replies_read_back(reply: JsonView, text: Seq<char>)
    requires
        simple_answer(reply),
        written(reply, text),
    ensures
        parsed(encode_utf8(text)) == Some(reply),
{
    let value = reply->Object_0[0].1;
    assert(nested(value, 126) && float_free(value));
    assert(nested(reply, 127) && float_free(reply));
}

/// The reply with the contact points is read back from its text as it is.
pub proof fn law_contact_points_read_back(v: JsonView, env: Option<Seq<char>>, text: Seq<char>)
    requires
        written(contact_points_answer(v, env), text),
    ensures
        parsed(encode_utf8(text)) == Some(contact_points_answer(v, env)),
{
    let answer = contact_points_answer(v, env);
    let nodes = answer->Object_0[0].1;
    assert forall|i: int| 0 <= i < nodes->Array_0.len() implies nested(
        #[trigger] nodes->Array_0[i],
        125,
    ) && float_free(nodes->Array_0[i]) by {}
    assert(nested(nodes, 126) && float_free(nodes));
    assert(nested(answer, 127) && float_free(answer));
}

/// Escaping a value gives a text that CQL reads back as the value when it stands between
/// single quotes; quoting one gives a text that is delimited and reads back, by either
/// quote. Without a string under `value` the request is refused.
pub proof fn law_quoting_helpers_read_back(v: JsonView, s: Seq<char>, quote: char)
    ensures
        json_get(v, "value"@) == Some(JsonView::String(s)) ==> (escape_answer(v) matches Ok(
            JsonView::Object(reply),
        ) && reply.len() == 1 && reply[0].0 == "value"@ && (reply[0].1 matches JsonView::String(
            text,
        ) && read_quoted(seq!['\''] + text + seq!['\''], 1, '\'') == Some(
            (s, text.len() as int + 2),
        ))),
        json_get(v, "value"@) == Some(JsonView::String(s)) ==> (quote_answer(v, quote) matches Ok(
            JsonView::Object(reply),
        ) && reply.len() == 1 && reply[0].0 == "value"@ && (reply[0].1 matches JsonView::String(
            text,
        ) && text.len() >= 2 && text[0] == quote && read_quoted(text, 1, quote) == Some(
            (s, text.len() as int),
        ))),
        !(json_get(v, "value"@) matches Some(JsonView::String(_))) ==> escape_answer(v) == Err::<
            JsonView,
            FailureView,
        >(FailureView::Missing("value"@)) && quote_answer(v, quote) == Err::<JsonView, FailureView>(
            FailureView::Missing("value"@),
        ) && valid_identifier_answer(v) == Err::<JsonView, FailureView>(
            FailureView::Missing("value"@),
        ),
        json_get(v, "value"@) == Some(JsonView::String(s)) ==> valid_identifier_answer(v) == Ok::<
            JsonView,
            FailureView,
        >(JsonView::Object(seq![("valid"@, JsonView::Bool(identifier_shape(s)))])),
{
    law_quoted_text_is_delimited(s, quote);
    law_quoted_text_is_delimited(s, '\'');
}

/// Formatting answers with the literal of the document under `value`, or the list of
/// those under `values`, whatever they are; without them the request is refused.
pub proof fn law_formatting_helpers_answer_with_the_literal(
    v: JsonView,
    x: JsonView,
    items: Seq<JsonView>,
)
    ensures
        json_get(v, "value"@) == Some(x) ==> format_value_answer(v) == Ok::<JsonView, FailureView>(
            JsonView::Object(seq![("value"@, JsonView::String(literal_text(x)))]),
        ),
        json_get(v, "value"@) is None ==> format_value_answer(v) == Err::<JsonView, FailureView>(
            FailureView::Missing("value"@),
        ),
        json_get(v, "values"@) == Some(JsonView::Array(items)) ==> format_in_list_answer(v) == Ok::<
            JsonView,
            FailureView,
        >(JsonView::Object(seq![("value"@, JsonView::String(in_list_text(items)))])),
        !(json_get(v, "values"@) matches Some(JsonView::Array(_))) ==> format_in_list_answer(v)
            == Err::<JsonView, FailureView>(FailureView::Missing("values array"@)),
{
}

/// A string that is formatted on its own or as the one item of an `IN` list comes back
/// as a literal that CQL reads as the string.
pub proof fn law_formatted_strings_read_back(v: JsonView, s: Seq<char>)
    ensures
        json_get(v, "value"@) == Some(JsonView::String(s)) ==> (format_value_answer(v) matches Ok(
            JsonView::Object(reply),
        ) && (reply[0].1 matches JsonView::String(text) && text.len() >= 2 && text[0] == '\''
            && read_quoted(text, 1, '\'') == Some((s, text.len() as int)))),
        json_get(v, "values"@) == Some(JsonView::Array(seq![JsonView::String(s)])) ==> (
        format_in_list_answer(v) matches Ok(JsonView::Object(reply)) && (
        reply[0].1 matches JsonView::String(text) && text.len() >= 4 && text[0] == '(' && text[1]
            == '\'' && read_quoted(text, 2, '\'') == Some((s, text.len() as int - 1)))),
{
    law_string_literals_read_back(seq!['('], s, seq![')']);
    law_list_literals_are_made_of_their_items(seq![], seq![], JsonView::String(s));
}

/// The contact points come back as strings under `value`: all of them, in their order.
pub proof fn law_contact_points_are_listed(v: JsonView, env: Option<Seq<char>>, i: int)
    ensures
        contact_points_answer(v, env) matches JsonView::Object(reply) && reply.len() == 1
            && reply[0].0 == "value"@ && (reply[0].1 matches JsonView::Array(nodes) && nodes.len()
            == resolved_conn(v, env).nodes.len() && (0 <= i < nodes.len() ==> nodes[i]
            == JsonView::String(resolved_conn(v, env).nodes[i]))),
{
}

}
