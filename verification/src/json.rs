//! JSON documents as plain values.
//!
//! [`Json`] is what requests and replies are made of. Its view, [`JsonView`],
//! is the mathematical document that every contract speaks of. The members of
//! an object keep the order in which they were added, and no key occurs twice.
pub mod codec;

use crate::text::{integer_text, integer_to_string, natural_to_string};
use crate::json::codec::{number_as_i64, number_to_string, number_view};
use vstd::prelude::*;

verus! {

/// A JSON number: an integer, or a floating point number known by its text.
pub enum NumberView {
    Int(int),
    Float(Seq<char>),
}

/// A JSON document.
pub enum JsonView {
    Null,
    Bool(bool),
    Number(NumberView),
    String(Seq<char>),
    Array(Seq<JsonView>),
    Object(Seq<(Seq<char>, JsonView)>),
}

/// A JSON number. An integer of a document that was read is held as such, any
/// other number as `serde_json` holds it.
#[derive(Debug, PartialEq)]
pub enum JsonNumber {
    PosInt(u64),
    NegInt(i64),
    Float(serde_json::Number),
}

/// A JSON value.
#[derive(Debug, PartialEq)]
pub enum Json {
    Null,
    Bool(bool),
    Number(JsonNumber),
    String(String),
    Array(Vec<Json>),
    Object(JsonObject),
}

/// The members of a JSON object, in the order in which they were added.
#[derive(Debug, PartialEq)]
pub struct JsonObject {
    entries: Vec<(String, Json)>,
}

// ── views ───────────────────────────────────────────────────────────────────

impl View for JsonNumber {
    type V = NumberView;

    open spec fn view(&self) -> NumberView {
        match self {
            JsonNumber::PosInt(u) => NumberView::Int(*u as int),
            JsonNumber::NegInt(i) => NumberView::Int(*i as int),
            JsonNumber::Float(n) => number_view(*n),
        }
    }
}

impl Json {
    /// The document that the value is.
    pub open spec fn view(&self) -> JsonView
        decreases self,
    {
        match self {
            Json::Null => JsonView::Null,
            Json::Bool(b) => JsonView::Bool(*b),
            Json::Number(n) => JsonView::Number(n@),
            Json::String(s) => JsonView::String(s@),
            Json::Array(a) => JsonView::Array(
                Seq::new(
                    a@.len(),
                    |i: int|
                        if 0 <= i < a@.len() {
                            a@[i].view()
                        } else {
                            JsonView::Null
                        },
                ),
            ),
            Json::Object(o) => JsonView::Object(o.view()),
        }
    }
}

impl JsonObject {
    /// The members, each a key with its document.
    pub closed spec fn view(&self) -> Seq<(Seq<char>, JsonView)>
        decreases self,
    {
        Seq::new(
            self.entries@.len(),
            |i: int|
                if 0 <= i < self.entries@.len() {
                    (self.entries@[i].0@, self.entries@[i].1.view())
                } else {
                    (seq![], JsonView::Null)
                },
        )
    }

    /// No key occurs twice.
    #[verifier::type_invariant]
    pub closed spec fn keys_differ(self) -> bool {
        forall|i: int, j: int|
            0 <= i < j < self.entries@.len() ==> self.entries@[i].0@ != self.entries@[j].0@
    }
}

/// The documents that the values are.
pub open spec fn json_views(values: Seq<Json>) -> Seq<JsonView> {
    values.map_values(|v: Json| v@)
}

/// The document of a value that may be absent.
pub open spec fn optional_view(value: Option<&Json>) -> Option<JsonView> {
    match value {
        Some(v) => Some(v@),
        None => None,
    }
}

/// An array value is the array of its items' documents.
pub proof fn lemma_array_view(items: Vec<Json>)
    ensures
        Json::Array(items)@ == JsonView::Array(json_views(items@)),
{
    assert(Json::Array(items)@->Array_0 =~= json_views(items@));
}

// ── what a document holds ───────────────────────────────────────────────────

/// Whether no key occurs twice.
pub open spec fn distinct_keys(members: Seq<(Seq<char>, JsonView)>) -> bool {
    forall|i: int, j: int| 0 <= i < j < members.len() ==> members[i].0 != members[j].0
}

/// Whether one of the members has the key.
pub open spec fn has_key(members: Seq<(Seq<char>, JsonView)>, key: Seq<char>) -> bool {
    exists|i: int| 0 <= i < members.len() && #[trigger] members[i].0 == key
}

/// Where the member with the key stands.
pub open spec fn key_index(members: Seq<(Seq<char>, JsonView)>, key: Seq<char>) -> int {
    choose|i: int| 0 <= i < members.len() && #[trigger] members[i].0 == key
}

/// The document under the key.
pub open spec fn member(members: Seq<(Seq<char>, JsonView)>, key: Seq<char>) -> Option<JsonView> {
    if has_key(members, key) {
        Some(members[key_index(members, key)].1)
    } else {
        None
    }
}

/// The members after the key was given the document: a key that is there keeps
/// its place, a new one comes last.
pub open spec fn with_member(
    members: Seq<(Seq<char>, JsonView)>,
    key: Seq<char>,
    value: JsonView,
) -> Seq<(Seq<char>, JsonView)> {
    if has_key(members, key) {
        members.update(key_index(members, key), (key, value))
    } else {
        members.push((key, value))
    }
}

/// The document under the key, for an object that has the key.
pub open spec fn json_get(v: JsonView, key: Seq<char>) -> Option<JsonView> {
    match v {
        JsonView::Object(members) => member(members, key),
        _ => None,
    }
}

/// The item at the index, for an array that is long enough.
pub open spec fn json_at(v: JsonView, index: int) -> Option<JsonView> {
    match v {
        JsonView::Array(items) => if 0 <= index < items.len() {
            Some(items[index])
        } else {
            None
        },
        _ => None,
    }
}

/// The characters of a string document.
pub open spec fn json_str(v: JsonView) -> Option<Seq<char>> {
    match v {
        JsonView::String(s) => Some(s),
        _ => None,
    }
}

/// The truth value of a boolean document.
pub open spec fn json_bool(v: JsonView) -> Option<bool> {
    match v {
        JsonView::Bool(b) => Some(b),
        _ => None,
    }
}

/// The integer of a number document, where 64 signed bits hold it.
pub open spec fn json_i64(v: JsonView) -> Option<int> {
    match v {
        JsonView::Number(NumberView::Int(i)) => if i64::MIN <= i <= i64::MAX {
            Some(i)
        } else {
            None
        },
        _ => None,
    }
}

/// The items of an array document.
pub open spec fn json_array(v: JsonView) -> Option<Seq<JsonView>> {
    match v {
        JsonView::Array(items) => Some(items),
        _ => None,
    }
}

/// The string under the key.
pub open spec fn json_str_at(v: JsonView, key: Seq<char>) -> Option<Seq<char>> {
    match json_get(v, key) {
        Some(x) => json_str(x),
        None => None,
    }
}

/// The object with one member.
pub open spec fn json_single(key: Seq<char>, value: JsonView) -> JsonView {
    JsonView::Object(seq![(key, value)])
}

/// The text of a number: decimal digits for an integer.
pub open spec fn number_view_text(n: NumberView) -> Seq<char> {
    match n {
        NumberView::Int(i) => integer_text(i),
        NumberView::Float(text) => text,
    }
}

/// Where keys differ, the member at an index with the key is the one.
pub proof fn lemma_key_index(members: Seq<(Seq<char>, JsonView)>, key: Seq<char>, i: int)
    requires
        distinct_keys(members),
        0 <= i < members.len(),
        members[i].0 == key,
    ensures
        has_key(members, key),
        key_index(members, key) == i,
{
    let k = key_index(members, key);
    assert(members[i].0 == key);
    if k < i {
        assert(members[k].0 != members[i].0);
    } else if i < k {
        assert(members[i].0 != members[k].0);
    }
}

/// Giving a key its document keeps the keys distinct, and the document is then
/// found under the key, while every other key is answered as before.
pub proof fn lemma_with_member(
    members: Seq<(Seq<char>, JsonView)>,
    key: Seq<char>,
    value: JsonView,
    other: Seq<char>,
)
    requires
        distinct_keys(members),
    ensures
        distinct_keys(with_member(members, key, value)),
        member(with_member(members, key, value), key) == Some(value),
        other != key ==> member(with_member(members, key, value), other) == member(members, other),
{
    let after = with_member(members, key, value);
    if has_key(members, key) {
        let k = key_index(members, key);
        assert forall|i: int, j: int| 0 <= i < j < after.len() implies after[i].0 != after[j].0 by {
            assert(after[i].0 == members[i].0);
            assert(after[j].0 == members[j].0);
        }
        lemma_key_index(after, key, k);
    } else {
        assert forall|i: int, j: int| 0 <= i < j < after.len() implies after[i].0 != after[j].0 by {
            if j == members.len() {
                assert(members[i].0 != key);
            }
        }
        lemma_key_index(after, key, members.len() as int);
    }
    if other != key {
        if has_key(members, other) {
            let m = key_index(members, other);
            assert(after[m] == members[m]);
            lemma_key_index(after, other, m);
        } else if has_key(after, other) {
            let m = key_index(after, other);
            assert(0 <= m < members.len());
            assert(members[m].0 == other);
        }
    }
}

// ── numbers ─────────────────────────────────────────────────────────────────

impl JsonNumber {
    /// The text of the number, as JSON writes it.
    pub fn text(&self) -> (text: String)
        ensures
            text@ == number_view_text(self@),
    {
        match self {
            JsonNumber::PosInt(u) => natural_to_string(*u),
            JsonNumber::NegInt(i) => integer_to_string(*i),
            JsonNumber::Float(n) => number_to_string(n),
        }
    }

    /// The number as a signed 64-bit integer.
    pub fn as_i64(&self) -> (value: Option<i64>)
        ensures
            match value {
                Some(i) => json_i64(JsonView::Number(self@)) == Some(i as int),
                None => json_i64(JsonView::Number(self@)) is None,
            },
    {
        match self {
            JsonNumber::PosInt(u) => if *u <= i64::MAX as u64 {
                Some(*u as i64)
            } else {
                None
            },
            JsonNumber::NegInt(i) => Some(*i),
            JsonNumber::Float(n) => number_as_i64(n),
        }
    }
}

impl Clone for JsonNumber {
    fn clone(&self) -> (copy: Self)
        ensures
            copy@ == self@,
    {
        match self {
            JsonNumber::PosInt(u) => JsonNumber::PosInt(*u),
            JsonNumber::NegInt(i) => JsonNumber::NegInt(*i),
            JsonNumber::Float(n) => JsonNumber::Float(n.clone()),
        }
    }
}

// ── objects ─────────────────────────────────────────────────────────────────

impl JsonObject {
    /// The object without members.
    pub fn new() -> (object: JsonObject)
        ensures
            object@ == Seq::<(Seq<char>, JsonView)>::empty(),
    {
        let object = JsonObject { entries: Vec::new() };
        proof {
            assert(object@ =~= Seq::<(Seq<char>, JsonView)>::empty());
        }
        object
    }

    /// How many members there are.
    pub fn len(&self) -> (n: usize)
        ensures
            n == self@.len(),
    {
        self.entries.len()
    }

    /// The member at the index: its key and its value.
    pub fn entry(&self, index: usize) -> (entry: (&String, &Json))
        requires
            index < self@.len(),
        ensures
            (entry.0@, entry.1@) == self@[index as int],
    {
        let found = &self.entries[index];
        (&found.0, &found.1)
    }

    /// Where the key stands, if it is there.
    fn position(&self, key: &str) -> (index: Option<usize>)
        ensures
            distinct_keys(self@),
            match index {
                Some(i) => i < self@.len() && has_key(self@, key@) && key_index(self@, key@) == i,
                None => !has_key(self@, key@),
            },
    {
        proof {
            use_type_invariant(self);
            assert forall|i: int, j: int| 0 <= i < j < self@.len() implies self@[i].0
                != self@[j].0 by {
                assert(self@[i].0 == self.entries@[i].0@);
                assert(self@[j].0 == self.entries@[j].0@);
            }
        }
        let wanted: String = key.to_owned();
        let mut i: usize = 0;
        while i < self.entries.len()
            invariant
                0 <= i <= self.entries@.len(),
                self@.len() == self.entries@.len(),
                wanted@ == key@,
                distinct_keys(self@),
                forall|k: int| 0 <= k < i ==> (#[trigger] self@[k]).0 != key@,
            decreases self.entries@.len() - i,
        {
            proof {
                assert(self@[i as int].0 == self.entries@[i as int].0@);
            }
            if self.entries[i].0 == wanted {
                proof {
                    lemma_key_index(self@, key@, i as int);
                }
                return Some(i);
            }
            i += 1;
        }
        None
    }

    /// The value under the key.
    pub fn get(&self, key: &str) -> (value: Option<&Json>)
        ensures
            optional_view(value) == member(self@, key@),
    {
        match self.position(key) {
            Some(i) => {
                proof {
                    assert(self@[i as int].1 == self.entries@[i as int].1@);
                }
                Some(&self.entries[i].1)
            },
            None => None,
        }
    }

    /// Gives the key the value. A key that is there keeps its place.
    pub fn insert(&mut self, key: String, value: Json)
        ensures
            final(self)@ == with_member(old(self)@, key@, value@),
    {
        let at: Option<usize> = self.position(key.as_str());
        proof {
            use_type_invariant(&*self);
        }
        let ghost before = self@;
        let ghost old_entries = self.entries@;
        let ghost key_view = key@;
        let ghost value_view = value@;
        let mut entries: Vec<(String, Json)> = Vec::new();
        std::mem::swap(&mut entries, &mut self.entries);
        match at {
            Some(i) => {
                entries.set(i, (key, value));
            },
            None => {
                entries.push((key, value));
            },
        }
        proof {
            let after = with_member(before, key_view, value_view);
            lemma_with_member(before, key_view, value_view, key_view);
            assert(entries@.len() == after.len());
            assert forall|k: int| 0 <= k < after.len() implies (
                #[trigger] entries@[k].0@,
                entries@[k].1@,
            ) == after[k] by {
                if k < before.len() {
                    assert(before[k] == (old_entries[k].0@, old_entries[k].1@));
                }
            }
            assert forall|i: int, j: int| 0 <= i < j < entries@.len() implies entries@[i].0@
                != entries@[j].0@ by {
                assert(after[i].0 == entries@[i].0@);
                assert(after[j].0 == entries@[j].0@);
            }
        }
        self.entries = entries;
        proof {
            assert(self@ =~= with_member(before, key_view, value_view));
        }
    }
}

// ── values ──────────────────────────────────────────────────────────────────

impl Json {
    /// The value under the key, for an object that has the key.
    pub fn get(&self, key: &str) -> (value: Option<&Json>)
        ensures
            optional_view(value) == json_get(self@, key@),
    {
        match self {
            Json::Object(members) => members.get(key),
            _ => None,
        }
    }

    /// The item at the index, for an array that is long enough.
    pub fn at(&self, index: usize) -> (value: Option<&Json>)
        ensures
            optional_view(value) == json_at(self@, index as int),
    {
        match self {
            Json::Array(items) => if index < items.len() {
                Some(&items[index])
            } else {
                None
            },
            _ => None,
        }
    }

    /// The text of a string.
    pub fn as_str(&self) -> (text: Option<&str>)
        ensures
            match text {
                Some(s) => json_str(self@) == Some(s@),
                None => json_str(self@) is None,
            },
    {
        match self {
            Json::String(s) => Some(s.as_str()),
            _ => None,
        }
    }

    /// The truth value of a boolean.
    pub fn as_bool(&self) -> (value: Option<bool>)
        ensures
            value == json_bool(self@),
    {
        match self {
            Json::Bool(b) => Some(*b),
            _ => None,
        }
    }

    /// The integer of a number, where 64 signed bits hold it.
    pub fn as_i64(&self) -> (value: Option<i64>)
        ensures
            match value {
                Some(i) => json_i64(self@) == Some(i as int),
                None => json_i64(self@) is None,
            },
    {
        match self {
            Json::Number(n) => n.as_i64(),
            _ => None,
        }
    }

    /// The items of an array.
    pub fn as_array(&self) -> (items: Option<&Vec<Json>>)
        ensures
            match items {
                Some(a) => json_array(self@) == Some(json_views(a@)),
                None => json_array(self@) is None,
            },
    {
        match self {
            Json::Array(items) => {
                proof {
                    lemma_array_view(*items);
                }
                Some(items)
            },
            _ => None,
        }
    }

    /// The members of an object.
    pub fn as_object(&self) -> (members: Option<&JsonObject>)
        ensures
            match members {
                Some(o) => self@ == JsonView::Object(o@),
                None => !(self@ is Object),
            },
    {
        match self {
            Json::Object(members) => Some(members),
            _ => None,
        }
    }

    /// The object with one member.
    pub fn single(key: &str, value: Json) -> (object: Json)
        ensures
            object@ == json_single(key@, value@),
    {
        let mut members: JsonObject = JsonObject::new();
        members.insert(key.to_owned(), value);
        Json::Object(members)
    }
}

/// An item of an array is smaller than the array.
pub proof fn lemma_item_smaller(value: Json, i: int)
    requires
        value is Array,
        0 <= i < value->Array_0@.len(),
    ensures
        decreases_to!(value => value->Array_0@[i]),
{
    assert(decreases_to!(value => value->Array_0));
    assert(decreases_to!(value->Array_0 => value->Array_0@));
    assert(decreases_to!(value->Array_0@ => value->Array_0@[i]));
}

/// The value of a member is smaller than the object.
proof fn lemma_member_smaller(value: Json, i: int)
    requires
        value is Object,
        0 <= i < value->Object_0.entries@.len(),
    ensures
        decreases_to!(value => value->Object_0.entries@[i].1),
{
    let entries = value->Object_0.entries;
    assert(decreases_to!(value => value->Object_0));
    assert(decreases_to!(value->Object_0 => value->Object_0.entries));
    assert(decreases_to!(entries => entries@));
    assert(decreases_to!(entries@ => entries@[i]));
    assert(decreases_to!(entries@[i] => entries@[i].1));
}

/// Copies the value, with all that it holds.
fn copy(value: &Json) -> (result: Json)
    ensures
        result@ == value@,
    decreases value,
{
    match value {
        Json::Null => Json::Null,
        Json::Bool(b) => Json::Bool(*b),
        Json::Number(n) => Json::Number(n.clone()),
        Json::String(s) => Json::String(s.clone()),
        Json::Array(items) => {
            let mut copies: Vec<Json> = Vec::new();
            let mut i: usize = 0;
            while i < items.len()
                invariant
                    0 <= i <= items@.len(),
                    *value == Json::Array(*items),
                    copies@.len() == i,
                    forall|k: int| 0 <= k < i ==> (#[trigger] copies@[k])@ == items@[k]@,
                decreases items@.len() - i,
            {
                proof {
                    lemma_item_smaller(*value, i as int);
                }
                copies.push(copy(&items[i]));
                i += 1;
            }
            proof {
                lemma_array_view(copies);
                lemma_array_view(*items);
                assert(json_views(copies@) =~= json_views(items@));
            }
            Json::Array(copies)
        },
        Json::Object(members) => {
            let mut copies: Vec<(String, Json)> = Vec::new();
            let mut i: usize = 0;
            while i < members.entries.len()
                invariant
                    0 <= i <= members.entries@.len(),
                    *value == Json::Object(*members),
                    copies@.len() == i,
                    forall|k: int|
                        0 <= k < i ==> (#[trigger] copies@[k]).0@ == members.entries@[k].0@
                            && copies@[k].1@ == members.entries@[k].1@,
                decreases members.entries@.len() - i,
            {
                let key: String = members.entries[i].0.clone();
                proof {
                    lemma_member_smaller(*value, i as int);
                }
                copies.push((key, copy(&members.entries[i].1)));
                i += 1;
            }
            proof {
                use_type_invariant(members);
            }
            let object = JsonObject { entries: copies };
            proof {
                assert(object@ =~= members@);
            }
            Json::Object(object)
        },
    }
}

impl Clone for Json {
    fn clone(&self) -> (result: Self)
        ensures
            result@ == self@,
    {
        copy(self)
    }
}

// ── laws ────────────────────────────────────────────────────────────────────

/// An object answers a key with the document that stands under it, wherever that is.
pub proof fn law_members_are_found_by_key(members: Seq<(Seq<char>, JsonView)>, i: int)
    requires
        distinct_keys(members),
        0 <= i < members.len(),
    ensures
        json_get(JsonView::Object(members), members[i].0) == Some(members[i].1),
        forall|s: Seq<char>|
            members[i].1 == JsonView::String(s) ==> json_str_at(
                JsonView::Object(members),
                members[i].0,
            ) == Some(s),
        !(members[i].1 is String) ==> json_str_at(JsonView::Object(members), members[i].0) is None,
{
    lemma_key_index(members, members[i].0, i);
}

/// A key that no member has is not answered, and nothing but an object answers a key.
pub proof fn law_absent_keys_are_not_found(v: JsonView, key: Seq<char>)
    requires
        v matches JsonView::Object(members) ==> forall|i: int|
            0 <= i < members.len() ==> (#[trigger] members[i]).0 != key,
    ensures
        json_get(v, key) is None,
        json_str_at(v, key) is None,
{
}

/// The string under a key is what stands there, where that is a string.
pub proof fn law_strings_under_keys(v: JsonView, key: Seq<char>, s: Seq<char>)
    ensures
        json_str_at(v, key) == Some(s) <==> json_get(v, key) == Some(JsonView::String(s)),
{
}

/// A document is read as a string, a truth value, an integer or an array exactly
/// where it is one.
pub proof fn law_documents_are_what_they_are(
    v: JsonView,
    s: Seq<char>,
    b: bool,
    i: int,
    items: Seq<JsonView>,
    index: int,
)
    ensures
        json_str(v) == Some(s) <==> v == JsonView::String(s),
        json_bool(v) == Some(b) <==> v == JsonView::Bool(b),
        json_i64(v) == Some(i) <==> v == JsonView::Number(NumberView::Int(i))
            && -0x8000_0000_0000_0000 <= i <= 0x7fff_ffff_ffff_ffff,
        json_array(v) == Some(items) <==> v == JsonView::Array(items),
        0 <= index < items.len() ==> json_at(JsonView::Array(items), index) == Some(items[index]),
        !(0 <= index < items.len()) ==> json_at(JsonView::Array(items), index) is None,
        !(v is Array) ==> json_at(v, index) is None,
{
}

/// Giving a key its document leaves every member in its place; a new key comes last.
pub proof fn law_members_keep_their_places(
    members: Seq<(Seq<char>, JsonView)>,
    key: Seq<char>,
    value: JsonView,
    i: int,
)
    requires
        distinct_keys(members),
        0 <= i < members.len(),
    ensures
        with_member(members, key, value)[i] == (if members[i].0 == key {
            (key, value)
        } else {
            members[i]
        }),
        members[i].0 == key ==> with_member(members, key, value).len() == members.len(),
        (forall|k: int| 0 <= k < members.len() ==> (#[trigger] members[k]).0 != key)
            ==> with_member(members, key, value) == members + seq![(key, value)],
        member(with_member(members, key, value), key) == Some(value),
{
    lemma_with_member(members, key, value, key);
    if members[i].0 == key {
        lemma_key_index(members, key, i);
    } else if has_key(members, key) {
        let k = key_index(members, key);
        assert(members[k].0 == key);
    }
    if forall|k: int| 0 <= k < members.len() ==> (#[trigger] members[k]).0 != key {
        assert(with_member(members, key, value) =~= members + seq![(key, value)]);
    }
}

/// The object with one member holds that member and nothing else, and a number's text
/// is its numeral, or the text that a floating point number has.
pub proof fn law_single_members_and_numbers(key: Seq<char>, value: JsonView, i: int, text: Seq<char>)
    ensures
        json_single(key, value) matches JsonView::Object(members) && members.len() == 1
            && members[0].0 == key && members[0].1 == value,
        number_view_text(NumberView::Int(i)) == integer_text(i),
        number_view_text(NumberView::Float(text)) == text,
{
}

/// A value is the document that it looks like.
pub proof fn law_values_are_their_documents(
    b: bool,
    u: u64,
    i: i64,
    n: serde_json::Number,
    s: String,
    items: Vec<Json>,
    index: int,
    object: JsonObject,
    value: Json,
)
    ensures
        Json::Null@ == JsonView::Null,
        Json::Bool(b)@ == JsonView::Bool(b),
        Json::Number(JsonNumber::PosInt(u))@ == JsonView::Number(NumberView::Int(u as int)),
        Json::Number(JsonNumber::NegInt(i))@ == JsonView::Number(NumberView::Int(i as int)),
        Json::Number(JsonNumber::Float(n))@ == JsonView::Number(number_view(n)),
        Json::String(s)@ == JsonView::String(s@),
        Json::Array(items)@ matches JsonView::Array(views) && views.len() == items@.len() && (0
            <= index < items@.len() ==> views[index] == items@[index]@),
        Json::Object(object)@ == JsonView::Object(object@),
        json_views(items@).len() == items@.len(),
        0 <= index < items@.len() ==> json_views(items@)[index] == items@[index]@,
        optional_view(Some(&value)) == Some(value@),
        optional_view(None) is None,
{
}

}
