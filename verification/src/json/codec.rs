//! JSON text to values and back, by `serde_json`.
use crate::json::{
    distinct_keys, has_key, json_views, key_index, lemma_array_view, lemma_item_smaller,
    lemma_member_smaller, number_view_text, Json, JsonNumber, JsonObject, JsonView, NumberView,
};
use vstd::prelude::*;
use vstd::utf8::encode_utf8;

verus! {

/// `serde_json::Value`, a JSON document of that crate.
#[verifier::external_type_specification]
#[verifier::external_body]
pub struct ExJsonValue(serde_json::Value);

/// `serde_json::Number`, a JSON number of that crate.
#[verifier::external_type_specification]
#[verifier::external_body]
pub struct ExJsonNumber(serde_json::Number);

/// What a `serde_json::Value` holds.
pub uninterp spec fn json_view(v: serde_json::Value) -> JsonView;

/// What a `serde_json::Number` holds: an integer, or a floating point number, which
/// is known by the text that it displays.
pub uninterp spec fn number_view(n: serde_json::Number) -> NumberView;

/// `serde_json::Number::clone` gives the same number.
pub assume_specification[ <serde_json::Number as Clone>::clone ](
    n: &serde_json::Number,
) -> (copy: serde_json::Number)
    ensures
        copy == *n,
;

/// `serde_json::Number::to_string` gives the text that the number displays: an
/// integer's decimal digits.
#[verifier::external_body]
pub(crate) fn number_to_string(n: &serde_json::Number) -> (text: String)
    ensures
        text@ == number_view_text(number_view(*n)),
{
    n.to_string()
}

/// `serde_json::Number::as_u64` gives an integer that 64 bits hold without a sign,
/// and nothing for any other number.
#[verifier::external_body]
fn number_as_u64(n: &serde_json::Number) -> (value: Option<u64>)
    ensures
        match value {
            Some(u) => number_view(*n) == NumberView::Int(u as int),
            None => forall|k: int|
                number_view(*n) == NumberView::Int(k) ==> !(0 <= k <= u64::MAX),
        },
{
    n.as_u64()
}

/// `serde_json::Number::as_i64` gives an integer that 64 bits hold with a sign, and
/// nothing for any other number.
#[verifier::external_body]
pub(crate) fn number_as_i64(n: &serde_json::Number) -> (value: Option<i64>)
    ensures
        match value {
            Some(i) => number_view(*n) == NumberView::Int(i as int),
            None => forall|k: int|
                number_view(*n) == NumberView::Int(k) ==> !(i64::MIN <= k <= i64::MAX),
        },
{
    n.as_i64()
}

/// `serde_json::Number::from` makes a number of an unsigned integer.
#[verifier::external_body]
fn number_from_u64(u: u64) -> (n: serde_json::Number)
    ensures
        number_view(n) == NumberView::Int(u as int),
{
    serde_json::Number::from(u)
}

/// `serde_json::Number::from` makes a number of a signed integer.
#[verifier::external_body]
fn number_from_i64(i: i64) -> (n: serde_json::Number)
    ensures
        number_view(n) == NumberView::Int(i as int),
{
    serde_json::Number::from(i)
}

impl JsonNumber {
    /// The number that the `serde_json` number is.
    pub fn from_serde(n: serde_json::Number) -> (number: JsonNumber)
        ensures
            number@ == number_view(n),
    {
        match number_as_u64(&n) {
            Some(u) => JsonNumber::PosInt(u),
            None => match number_as_i64(&n) {
                Some(i) => JsonNumber::NegInt(i),
                None => JsonNumber::Float(n),
            },
        }
    }

    /// The `serde_json` number that the number is.
    pub fn to_serde(&self) -> (n: serde_json::Number)
        ensures
            number_view(n) == self@,
    {
        match self {
            JsonNumber::PosInt(u) => number_from_u64(*u),
            JsonNumber::NegInt(i) => number_from_i64(*i),
            JsonNumber::Float(n) => n.clone(),
        }
    }
}

/// One layer of a `serde_json::Value`: what kind of document it is, with the
/// documents inside still as that crate holds them.
pub enum Layer {
    Null,
    Bool(bool),
    Number(serde_json::Number),
    String(String),
    Array(Vec<serde_json::Value>),
    Object(Vec<(String, serde_json::Value)>),
}

impl View for Layer {
    type V = JsonView;

    open spec fn view(&self) -> JsonView {
        match self {
            Layer::Null => JsonView::Null,
            Layer::Bool(b) => JsonView::Bool(*b),
            Layer::Number(n) => JsonView::Number(number_view(*n)),
            Layer::String(s) => JsonView::String(s@),
            Layer::Array(items) => JsonView::Array(
                items@.map_values(|v: serde_json::Value| json_view(v)),
            ),
            Layer::Object(members) => JsonView::Object(
                members@.map_values(|m: (String, serde_json::Value)| (m.0@, json_view(m.1))),
            ),
        }
    }
}

/// The variants of `serde_json::Value`, told apart. The members of an object come in
/// the order in which `serde_json::Map` holds them, and that map holds each key once.
#[verifier::external_body]
fn open(v: serde_json::Value) -> (layer: Layer)
    ensures
        layer@ == json_view(v),
        layer@ matches JsonView::Object(members) ==> distinct_keys(members),
{
    match v {
        serde_json::Value::Null => Layer::Null,
        serde_json::Value::Bool(b) => Layer::Bool(b),
        serde_json::Value::Number(n) => Layer::Number(n),
        serde_json::Value::String(s) => Layer::String(s),
        serde_json::Value::Array(items) => Layer::Array(items),
        serde_json::Value::Object(members) => Layer::Object(members.into_iter().collect()),
    }
}

/// The variants of `serde_json::Value`, put together. `serde_json::Map` takes
/// members with distinct keys in the order in which they come.
#[verifier::external_body]
fn close(layer: Layer) -> (v: serde_json::Value)
    requires
        layer@ matches JsonView::Object(members) ==> distinct_keys(members),
    ensures
        json_view(v) == layer@,
{
    match layer {
        Layer::Null => serde_json::Value::Null,
        Layer::Bool(b) => serde_json::Value::Bool(b),
        Layer::Number(n) => serde_json::Value::Number(n),
        Layer::String(s) => serde_json::Value::String(s),
        Layer::Array(items) => serde_json::Value::Array(items),
        Layer::Object(members) => serde_json::Value::Object(members.into_iter().collect()),
    }
}

impl Json {
    /// The value that the `serde_json` document is.
    pub fn from_serde(v: serde_json::Value) -> (value: Json)
        ensures
            value@ == json_view(v),
        decreases json_view(v),
    {
        match open(v) {
            Layer::Null => Json::Null,
            Layer::Bool(b) => Json::Bool(b),
            Layer::Number(n) => Json::Number(JsonNumber::from_serde(n)),
            Layer::String(s) => Json::String(s),
            Layer::Array(items) => {
                let ghost all = items@;
                let mut values: Vec<Json> = Vec::new();
                for item in it: items
                    invariant
                        it.seq() == all,
                        json_view(v) == JsonView::Array(
                            all.map_values(|v: serde_json::Value| json_view(v)),
                        ),
                        values@.len() == it.index(),
                        forall|k: int|
                            0 <= k < values@.len() ==> (#[trigger] values@[k])@ == json_view(all[k]),
                {
                    proof {
                        assert(json_view(v)->Array_0[it.index() as int] == json_view(item));
                    }
                    values.push(Json::from_serde(item));
                }
                proof {
                    lemma_array_view(values);
                    assert(json_views(values@) =~= json_view(v)->Array_0);
                }
                Json::Array(values)
            },
            Layer::Object(members) => {
                let ghost all = members@;
                let ghost target = json_view(v)->Object_0;
                let mut object: JsonObject = JsonObject::new();
                proof {
                    assert(object@ =~= target.take(0));
                }
                for entry in it: members
                    invariant
                        it.seq() == all,
                        json_view(v) == JsonView::Object(target),
                        target == all.map_values(
                            |m: (String, serde_json::Value)| (m.0@, json_view(m.1)),
                        ),
                        distinct_keys(target),
                        object@ == target.take(it.index() as int),
                {
                    let ghost k = it.index() as int;
                    proof {
                        assert(target[k] == (entry.0@, json_view(entry.1)));
                        assert(!has_key(target.take(k), entry.0@)) by {
                            if has_key(target.take(k), entry.0@) {
                                let j = key_index(target.take(k), entry.0@);
                                assert(target[j].0 == target[k].0);
                            }
                        }
                        assert(decreases_to!(json_view(v) => json_view(v)->Object_0));
                        assert(decreases_to!(target => target[k]));
                        assert(decreases_to!(target[k] => target[k].1));
                        assert(target.take(k + 1) =~= target.take(k).push(target[k]));
                    }
                    let (key, document) = entry;
                    object.insert(key, Json::from_serde(document));
                }
                proof {
                    assert(target.take(all.len() as int) =~= target);
                }
                Json::Object(object)
            },
        }
    }

    /// The `serde_json` document that the value is.
    pub fn to_serde(&self) -> (v: serde_json::Value)
        ensures
            json_view(v) == self@,
        decreases self,
    {
        match self {
            Json::Null => close(Layer::Null),
            Json::Bool(b) => close(Layer::Bool(*b)),
            Json::Number(n) => close(Layer::Number(n.to_serde())),
            Json::String(s) => close(Layer::String(s.clone())),
            Json::Array(values) => {
                let mut items: Vec<serde_json::Value> = Vec::new();
                let mut i: usize = 0;
                while i < values.len()
                    invariant
                        0 <= i <= values@.len(),
                        *self == Json::Array(*values),
                        items@.len() == i,
                        forall|k: int|
                            0 <= k < i ==> json_view(#[trigger] items@[k]) == values@[k]@,
                    decreases values@.len() - i,
                {
                    proof {
                        lemma_item_smaller(*self, i as int);
                    }
                    items.push(values[i].to_serde());
                    i += 1;
                }
                let layer = Layer::Array(items);
                proof {
                    lemma_array_view(*values);
                    assert(layer@->Array_0 =~= json_views(values@));
                }
                close(layer)
            },
            Json::Object(object) => {
                let mut members: Vec<(String, serde_json::Value)> = Vec::new();
                let mut i: usize = 0;
                while i < object.entries.len()
                    invariant
                        0 <= i <= object.entries@.len(),
                        *self == Json::Object(*object),
                        members@.len() == i,
                        forall|k: int|
                            0 <= k < i ==> (#[trigger] members@[k]).0@ == object.entries@[k].0@
                                && json_view(members@[k].1) == object.entries@[k].1@,
                    decreases object.entries@.len() - i,
                {
                    let key: String = object.entries[i].0.clone();
                    proof {
                        lemma_member_smaller(*self, i as int);
                    }
                    members.push((key, object.entries[i].1.to_serde()));
                    i += 1;
                }
                let layer = Layer::Object(members);
                proof {
                    use_type_invariant(object);
                    assert(layer@->Object_0 =~= object@);
                    assert forall|i: int, j: int| 0 <= i < j < object@.len() implies object@[i].0
                        != object@[j].0 by {
                        assert(object@[i].0 == object.entries@[i].0@);
                        assert(object@[j].0 == object.entries@[j].0@);
                    }
                }
                close(layer)
            },
        }
    }
}

// ── text ────────────────────────────────────────────────────────────────────

/// `serde_json::Error`, why a text is no JSON document or a document has no text.
#[verifier::external_type_specification]
#[verifier::external_body]
pub struct ExJsonError(serde_json::Error);

/// What `serde_json::from_slice` reads from the bytes; `None` where it fails.
pub uninterp spec fn parsed(bytes: Seq<u8>) -> Option<JsonView>;

/// What `serde_json::to_string` writes for the document: its compact JSON text.
pub uninterp spec fn encoded(v: JsonView) -> Seq<char>;

/// `serde_json::from_slice` reads a document from the bytes, or fails: the same
/// bytes are always answered in the same way.
#[verifier::external_body]
fn read(bytes: &[u8]) -> (v: Result<serde_json::Value, serde_json::Error>)
    ensures
        match v {
            Ok(document) => parsed(bytes@) == Some(json_view(document)),
            Err(_) => parsed(bytes@) is None,
        },
{
    serde_json::from_slice::<serde_json::Value>(bytes)
}

/// Whether the document nests arrays and objects at most `depth` deep.
pub open spec fn nested(v: JsonView, depth: nat) -> bool
    decreases v,
{
    match v {
        JsonView::Array(items) => depth > 0 && forall|i: int|
            0 <= i < items.len() ==> nested(#[trigger] items[i], (depth - 1) as nat),
        JsonView::Object(members) => depth > 0 && forall|i: int|
            0 <= i < members.len() ==> nested((#[trigger] members[i]).1, (depth - 1) as nat),
        _ => true,
    }
}

/// What nests at most `depth` deep nests at most as deep as any greater bound.
pub proof fn lemma_nested_deeper(v: JsonView, depth: nat, more: nat)
    requires
        nested(v, depth),
        depth <= more,
    ensures
        nested(v, more),
    decreases v,
{
    match v {
        JsonView::Array(items) => {
            assert forall|i: int| 0 <= i < items.len() implies nested(
                #[trigger] items[i],
                (more - 1) as nat,
            ) by {
                lemma_nested_deeper(items[i], (depth - 1) as nat, (more - 1) as nat);
            }
        },
        JsonView::Object(members) => {
            assert forall|i: int| 0 <= i < members.len() implies nested(
                (#[trigger] members[i]).1,
                (more - 1) as nat,
            ) by {
                assert(decreases_to!(v => v->Object_0));
                assert(decreases_to!(members => members[i]));
                assert(decreases_to!(members[i] => members[i].1));
                lemma_nested_deeper(members[i].1, (depth - 1) as nat, (more - 1) as nat);
            }
        },
        _ => {},
    }
}

/// Whether the document holds no floating point number.
pub open spec fn float_free(v: JsonView) -> bool
    decreases v,
{
    match v {
        JsonView::Number(NumberView::Float(_)) => false,
        JsonView::Array(items) => forall|i: int|
            0 <= i < items.len() ==> float_free(#[trigger] items[i]),
        JsonView::Object(members) => forall|i: int|
            0 <= i < members.len() ==> float_free((#[trigger] members[i]).1),
        _ => true,
    }
}

/// Whether the text is what is written for the document. It holds no U+0000. Where
/// the document nests at most as deep as is read, the text is read as JSON, and as
/// this document where it holds no floating point number.
pub open spec fn written(v: JsonView, text: Seq<char>) -> bool {
    &&& text == encoded(v)
    &&& !text.contains('\0')
    &&& nested(v, 127) ==> parsed(encode_utf8(text)) is Some
    &&& nested(v, 127) && float_free(v) ==> parsed(encode_utf8(text)) == Some(v)
}

/// `serde_json::to_string` writes the document, always in the same way. It fails only
/// for a key that is no string or a type that refuses to be written, and a
/// `serde_json::Value` has neither. It escapes control characters, U+0000 among them.
/// `serde_json::from_slice` accepts what was written, up to the depth that it allows,
/// and reads the same document. The one exception is a floating point number, which
/// is always accepted but may be rounded: of its value nothing is said.
#[verifier::external_body]
fn write(v: &serde_json::Value) -> (text: Result<String, serde_json::Error>)
    ensures
        text is Ok,
        text matches Ok(s) ==> s@ == encoded(json_view(*v)) && written(json_view(*v), s@),
{
    serde_json::to_string(v)
}

/// `serde_json::Value::to_string` displays the document, which writes it as
/// `serde_json::to_string` does.
#[verifier::external_body]
fn display(v: &serde_json::Value) -> (text: String)
    ensures
        text@ == encoded(json_view(*v)),
        written(json_view(*v), text@),
{
    v.to_string()
}

impl Json {
    /// Reads a document from JSON text. `None` where the bytes are no JSON text.
    pub fn parse(bytes: &[u8]) -> (value: Option<Json>)
        ensures
            match value {
                Some(v) => parsed(bytes@) == Some(v@),
                None => parsed(bytes@) is None,
            },
    {
        match read(bytes) {
            Ok(v) => Some(Json::from_serde(v)),
            Err(_) => None,
        }
    }

    /// Writes the document as JSON text. There is always a text; `None` would tell
    /// that `serde_json` refused the document.
    pub fn encode(&self) -> (text: Option<String>)
        ensures
            text matches Some(s) && written(self@, s@),
    {
        match write(&self.to_serde()) {
            Ok(text) => Some(text),
            Err(_) => None,
        }
    }

    /// The compact JSON text of the document.
    pub fn display(&self) -> (text: String)
        ensures
            text@ == encoded(self@),
            written(self@, text@),
    {
        display(&self.to_serde())
    }
}

}
