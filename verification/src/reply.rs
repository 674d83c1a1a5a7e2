//! Requests that come in as JSON text and the replies that go out as JSON text.
use crate::json::codec::{encoded, float_free, nested, parsed, written};
use crate::json::{json_single, Json, JsonView};
use vstd::prelude::*;
use vstd::string::*;
use vstd::utf8::{char_is_scalar, encode_scalar, encode_utf8, has_width_1_encoding};

verus! {

/// Why a request is refused or failed.
#[derive(Debug, PartialEq)]
pub enum Failure {
    /// The request lacks a field.
    Missing(String),
    /// No contact point answered.
    Connect(String),
    /// The session could not select its keyspace.
    UseKeyspace { keyspace: String, cause: String },
    /// The cluster or the driver rejected the statement.
    Driver(String),
    /// The request was given up halfway.
    Panicked,
}

/// The view of a [`Failure`].
pub enum FailureView {
    Missing(Seq<char>),
    Connect(Seq<char>),
    UseKeyspace { keyspace: Seq<char>, cause: Seq<char> },
    Driver(Seq<char>),
    Panicked,
}

impl View for Failure {
    type V = FailureView;

    open spec fn view(&self) -> FailureView {
        match self {
            Failure::Missing(field) => FailureView::Missing(field@),
            Failure::Connect(cause) => FailureView::Connect(cause@),
            Failure::UseKeyspace { keyspace, cause } => FailureView::UseKeyspace {
                keyspace: keyspace@,
                cause: cause@,
            },
            Failure::Driver(cause) => FailureView::Driver(cause@),
            Failure::Panicked => FailureView::Panicked,
        }
    }
}

/// The message of an error.
pub open spec fn error_text(e: FailureView) -> Seq<char> {
    match e {
        FailureView::Missing(field) => "missing "@ + field,
        FailureView::Connect(cause) => "connect: "@ + cause,
        FailureView::UseKeyspace { keyspace, cause } => "use keyspace "@ + keyspace + ": "@ + cause,
        FailureView::Driver(cause) => cause,
        FailureView::Panicked => "stryke-scylla handler panicked"@,
    }
}

impl Failure {
    /// The message of the error.
    pub fn message(&self) -> (text: String)
        ensures
            text@ == error_text(self@),
    {
        match self {
            Failure::Missing(field) => {
                let mut text: String = "missing ".to_owned();
                text.append(field.as_str());
                text
            },
            Failure::Connect(cause) => {
                let mut text: String = "connect: ".to_owned();
                text.append(cause.as_str());
                text
            },
            Failure::UseKeyspace { keyspace, cause } => {
                let mut text: String = "use keyspace ".to_owned();
                text.append(keyspace.as_str());
                text.append(": ");
                text.append(cause.as_str());
                text
            },
            Failure::Driver(cause) => cause.clone(),
            Failure::Panicked => "stryke-scylla handler panicked".to_owned(),
        }
    }
}

// ── outcomes ────────────────────────────────────────────────────────────────

/// The view of the outcome of a request.
pub open spec fn outcome_view(outcome: Result<Json, Failure>) -> Result<JsonView, FailureView> {
    match outcome {
        Ok(v) => Ok(v@),
        Err(e) => Err(e@),
    }
}

/// The reply of a request: what it gave, or an object with its error's message.
pub open spec fn reply_json(outcome: Result<JsonView, FailureView>) -> JsonView {
    match outcome {
        Ok(v) => v,
        Err(e) => json_single("error"@, JsonView::String(error_text(e))),
    }
}

/// The text that is sent: the written document, or a fixed error where it could
/// not be written.
pub open spec fn sent_text(written: Option<Seq<char>>) -> Seq<char> {
    match written {
        Some(text) => text,
        None => "{\"error\":\"serialize\"}"@,
    }
}

/// The text of a request's reply.
pub open spec fn reply_text(outcome: Result<JsonView, FailureView>) -> Seq<char> {
    encoded(reply_json(outcome))
}

/// The reply of a request: what it gave, or an object with its error's message.
pub fn reply_of(outcome: Result<Json, Failure>) -> (reply: Json)
    ensures
        reply@ == reply_json(outcome_view(outcome)),
{
    match outcome {
        Ok(v) => v,
        Err(e) => Json::single("error", Json::String(e.message())),
    }
}

/// The text that is sent for a document that was written, or could not be.
pub fn text_to_send(written: Option<String>) -> (text: String)
    ensures
        text@ == sent_text(
            match written {
                Some(s) => Some(s@),
                None => None,
            },
        ),
{
    match written {
        Some(text) => text,
        None => "{\"error\":\"serialize\"}".to_owned(),
    }
}

/// Writes the reply of a request.
pub fn respond(outcome: Result<Json, Failure>) -> (text: String)
    ensures
        text@ == reply_text(outcome_view(outcome)),
        written(reply_json(outcome_view(outcome)), text@),
{
    text_to_send(reply_of(outcome).encode())
}

/// The reply to a request that was given up halfway.
pub fn panicked_reply() -> (text: String)
    ensures
        text@ == reply_text(Err(FailureView::Panicked)),
        written(reply_json(Err(FailureView::Panicked)), text@),
{
    respond(Err(Failure::Panicked))
}

/// An error's reply is read back from its text as it is, whatever its message holds.
pub proof fn law_errors_read_back(e: FailureView, text: Seq<char>)
    requires
        written(reply_json(Err(e)), text),
    ensures
        parsed(encode_utf8(text)) == Some(json_single("error"@, JsonView::String(error_text(e)))),
{
    let reply = json_single("error"@, JsonView::String(error_text(e)));
    let message = JsonView::String(error_text(e));
    assert(nested(message, 126) && float_free(message));
    assert(nested(reply, 127) && float_free(reply));
}

/// The bytes of a character other than U+0000 are not zero.
proof fn lemma_scalar_bytes_are_not_zero(c: char)
    requires
        c != '\0',
    ensures
        !encode_scalar(c as u32).contains(0u8),
{
    char_is_scalar(c);
    let v = c as u32;
    assert(0xC0 | ((v >> 6) & 0x1F) as u8 != 0u8) by (bit_vector);
    assert(0xE0 | ((v >> 12) & 0x0F) as u8 != 0u8) by (bit_vector);
    assert(0xF0 | ((v >> 18) & 0x7) as u8 != 0u8) by (bit_vector);
    assert(0x80 | (v & 0x3F) as u8 != 0u8) by (bit_vector);
    assert(0x80 | ((v >> 6) & 0x3F) as u8 != 0u8) by (bit_vector);
    assert(0x80 | ((v >> 12) & 0x3F) as u8 != 0u8) by (bit_vector);
    if has_width_1_encoding(v) {
        assert((v & 0x7F) as u8 != 0u8) by (bit_vector)
            requires
                0 < v <= 0x7F,
        ;
    }
}

/// A text without U+0000 has no zero byte, so it can be handed out as a C string
/// without loss.
pub proof fn law_text_has_no_zero_byte(text: Seq<char>)
    requires
        !text.contains('\0'),
    ensures
        !encode_utf8(text).contains(0u8),
    decreases text.len(),
{
    if text.len() > 0 {
        let rest = text.drop_first();
        assert(text[0] != '\0');
        assert(!rest.contains('\0')) by {
            if rest.contains('\0') {
                let i = choose|i: int| 0 <= i < rest.len() && rest[i] == '\0';
                assert(text[i + 1] == '\0');
            }
        }
        lemma_scalar_bytes_are_not_zero(text[0]);
        law_text_has_no_zero_byte(rest);
        let first = encode_scalar(text[0] as u32);
        let bytes = encode_utf8(text);
        assert(bytes == first + encode_utf8(rest));
        assert forall|i: int| 0 <= i < bytes.len() implies bytes[i] != 0u8 by {
            if i < first.len() {
                assert(bytes[i] == first[i]);
            } else {
                assert(bytes[i] == encode_utf8(rest)[i - first.len()]);
            }
        }
    }
}

// ── arguments ───────────────────────────────────────────────────────────────

/// The document of a request: `null` where there is no text or it is no JSON.
pub open spec fn args_json(args: Option<Seq<u8>>) -> JsonView {
    match args {
        Some(bytes) => match parsed(bytes) {
            Some(v) => v,
            None => JsonView::Null,
        },
        None => JsonView::Null,
    }
}

/// The bytes of a request that may be absent.
pub open spec fn args_view(args: Option<&[u8]>) -> Option<Seq<u8>> {
    match args {
        Some(bytes) => Some(bytes@),
        None => None,
    }
}

/// Reads the document of a request. No text, or text that is no JSON, is `null`.
pub fn read_args(args: Option<&[u8]>) -> (v: Json)
    ensures
        v@ == args_json(args_view(args)),
{
    match args {
        Some(bytes) => match Json::parse(bytes) {
            Some(v) => v,
            None => Json::Null,
        },
        None => Json::Null,
    }
}

// ── laws ────────────────────────────────────────────────────────────────────

/// A failure's message names what was missing, tells the cause of a failed connection
/// or keyspace with what was tried, and passes on what the driver said.
pub proof fn law_messages_tell_the_failure(text: String, cause: String)
    ensures
        error_text(Failure::Missing(text)@) == "missing "@ + text@,
        error_text(Failure::Connect(cause)@) == "connect: "@ + cause@,
        error_text((Failure::UseKeyspace { keyspace: text, cause })@) == "use keyspace "@ + text@
            + ": "@ + cause@,
        error_text(Failure::Driver(cause)@) == cause@,
        error_text(Failure::Panicked@) == "stryke-scylla handler panicked"@,
        Failure::Missing(text)@ == FailureView::Missing(text@),
        Failure::Connect(cause)@ == FailureView::Connect(cause@),
        (Failure::UseKeyspace { keyspace: text, cause })@ == (FailureView::UseKeyspace {
            keyspace: text@,
            cause: cause@,
        }),
        Failure::Driver(cause)@ == FailureView::Driver(cause@),
        Failure::Panicked@ == FailureView::Panicked,
{
}

/// A request that succeeded is replied to with what it gave, unchanged; one that failed
/// with an object of one member, the message under `error`. The reply is sent as it is
/// written.
pub proof fn law_replies_pass_on_the_outcome(
    v: JsonView,
    e: FailureView,
    value: Json,
    failure: Failure,
    text: Seq<char>,
)
    ensures
        reply_json(Ok(v)) == v,
        reply_json(Err(e)) == JsonView::Object(seq![("error"@, JsonView::String(error_text(e)))]),
        reply_text(Ok(v)) == encoded(v),
        reply_text(Err(e)) == encoded(
            JsonView::Object(seq![("error"@, JsonView::String(error_text(e)))]),
        ),
        outcome_view(Ok(value)) == Ok::<JsonView, FailureView>(value@),
        outcome_view(Err(failure)) == Err::<JsonView, FailureView>(failure@),
        sent_text(Some(text)) == text,
        sent_text(None) == "{\"error\":\"serialize\"}"@,
{
}

/// A request is the document that its bytes are read as; no bytes, and bytes that are
/// no JSON, are null.
pub proof fn law_requests_are_read(bytes: &[u8], v: JsonView)
    ensures
        parsed(bytes@) == Some(v) ==> args_json(args_view(Some(bytes))) == v,
        parsed(bytes@) is None ==> args_json(args_view(Some(bytes))) == JsonView::Null,
        args_json(args_view(None)) == JsonView::Null,
{
}

}
