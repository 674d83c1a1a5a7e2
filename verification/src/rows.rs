//! Query results: CQL values and rows as JSON.
use crate::conn::string_views;
use crate::json::{
    distinct_keys, has_key, json_single, json_views, key_index, law_members_keep_their_places,
    lemma_array_view, lemma_with_member, member, with_member, Json, JsonNumber, JsonObject, JsonView,
    NumberView,
};
use crate::json::codec::number_view;
use crate::text::{law_numerals_read_back, natural_text, natural_to_string, numeral_value};
use vstd::prelude::*;

verus! {

/// A value of a CQL column.
///
/// A floating point number is held as the JSON number it is; the numbers that
/// JSON lacks (not a number, the infinities) are `None`. Types without a natural
/// JSON form are held as the driver holds them.
#[derive(Debug, PartialEq)]
pub enum Cql {
    Boolean(bool),
    Int(i32),
    BigInt(i64),
    SmallInt(i16),
    TinyInt(i8),
    Float(Option<serde_json::Number>),
    Double(Option<serde_json::Number>),
    Text(String),
    Ascii(String),
    Uuid([u8; 16]),
    Empty,
    ListOf(Vec<Cql>),
    SetOf(Vec<Cql>),
    MapOf(Vec<(Cql, Cql)>),
    Other(scylla::value::CqlValue),
}

/// The view of a [`Cql`] value.
pub enum CqlView {
    Boolean(bool),
    Int(int),
    BigInt(int),
    SmallInt(int),
    TinyInt(int),
    Float(Option<NumberView>),
    Double(Option<NumberView>),
    Text(Seq<char>),
    Ascii(Seq<char>),
    Uuid(Seq<u8>),
    Empty,
    ListOf(Seq<CqlView>),
    SetOf(Seq<CqlView>),
    MapOf(Seq<(CqlView, CqlView)>),
    Other(Seq<char>),
}

/// The number, where JSON has it.
pub open spec fn float_view(n: Option<serde_json::Number>) -> Option<NumberView> {
    match n {
        Some(x) => Some(number_view(x)),
        None => None,
    }
}

impl Cql {
    /// The mathematical value.
    pub open spec fn view(&self) -> CqlView
        decreases self,
    {
        match self {
            Cql::Boolean(b) => CqlView::Boolean(*b),
            Cql::Int(i) => CqlView::Int(*i as int),
            Cql::BigInt(i) => CqlView::BigInt(*i as int),
            Cql::SmallInt(i) => CqlView::SmallInt(*i as int),
            Cql::TinyInt(i) => CqlView::TinyInt(*i as int),
            Cql::Float(n) => CqlView::Float(float_view(*n)),
            Cql::Double(n) => CqlView::Double(float_view(*n)),
            Cql::Text(s) => CqlView::Text(s@),
            Cql::Ascii(s) => CqlView::Ascii(s@),
            Cql::Uuid(bytes) => CqlView::Uuid(bytes@),
            Cql::Empty => CqlView::Empty,
            Cql::ListOf(items) => CqlView::ListOf(
                Seq::new(
                    items@.len(),
                    |i: int|
                        if 0 <= i < items@.len() {
                            items@[i].view()
                        } else {
                            CqlView::Empty
                        },
                ),
            ),
            Cql::SetOf(items) => CqlView::SetOf(
                Seq::new(
                    items@.len(),
                    |i: int|
                        if 0 <= i < items@.len() {
                            items@[i].view()
                        } else {
                            CqlView::Empty
                        },
                ),
            ),
            Cql::MapOf(pairs) => CqlView::MapOf(
                Seq::new(
                    pairs@.len(),
                    |i: int|
                        if 0 <= i < pairs@.len() {
                            (pairs@[i].0.view(), pairs@[i].1.view())
                        } else {
                            (CqlView::Empty, CqlView::Empty)
                        },
                ),
            ),
            Cql::Other(v) => CqlView::Other(debug_text(*v)),
        }
    }
}

// ── what the outside crates write ───────────────────────────────────────────

/// `scylla::value::CqlValue`, a CQL value of the driver.
#[verifier::external_type_specification]
#[verifier::external_body]
pub struct ExDriverValue(scylla::value::CqlValue);

/// The text that `scylla::value::CqlValue` gives as its debug form.
pub uninterp spec fn debug_text(v: scylla::value::CqlValue) -> Seq<char>;

/// The debug form of `scylla::value::CqlValue`, which that type derives: the same
/// value always gives the same text.
#[verifier::external_body]
fn debug_string(v: &scylla::value::CqlValue) -> (text: String)
    ensures
        text@ == debug_text(*v),
{
    format!("{:?}", v)
}

/// The lower-case hexadecimal digit.
pub open spec fn hex_digit(n: int) -> char {
    if n < 10 {
        (48 + n) as char
    } else {
        (87 + n) as char
    }
}

/// The bytes in lower-case hexadecimal, two digits each.
pub open spec fn hex_text(bytes: Seq<u8>) -> Seq<char> {
    Seq::new(
        2 * bytes.len(),
        |i: int|
            hex_digit(
                if i % 2 == 0 {
                    bytes[i / 2] as int / 16
                } else {
                    bytes[i / 2] as int % 16
                },
            ),
    )
}

/// The hyphenated form of a UUID: groups of 4, 2, 2, 2 and 6 bytes.
pub open spec fn uuid_text(bytes: Seq<u8>) -> Seq<char> {
    hex_text(bytes.subrange(0, 4)) + seq!['-'] + hex_text(bytes.subrange(4, 6)) + seq!['-']
        + hex_text(bytes.subrange(6, 8)) + seq!['-'] + hex_text(bytes.subrange(8, 10)) + seq!['-']
        + hex_text(bytes.subrange(10, 16))
}

/// `uuid::Uuid::to_string` gives the hyphenated form in lower case, and
/// `uuid::Uuid::from_bytes` takes the bytes in the order of that form.
#[verifier::external_body]
fn uuid_string(bytes: &[u8; 16]) -> (text: String)
    ensures
        text@ == uuid_text(bytes@),
{
    uuid::Uuid::from_bytes(*bytes).to_string()
}

// ── CQL values as JSON ──────────────────────────────────────────────────────

/// The integer document.
pub open spec fn json_int(i: int) -> JsonView {
    JsonView::Number(NumberView::Int(i))
}

/// The document of a floating point number; `null` for one that JSON lacks.
pub open spec fn float_json(n: Option<NumberView>) -> JsonView {
    match n {
        Some(x) => JsonView::Number(x),
        None => JsonView::Null,
    }
}

/// The natural JSON form of a CQL value. A map is the array of its pairs, each an
/// array of key and value; a type without a natural form is the string of its
/// debug form.
pub open spec fn cql_json(v: CqlView) -> JsonView
    decreases v,
{
    match v {
        CqlView::Boolean(b) => JsonView::Bool(b),
        CqlView::Int(i) => json_int(i),
        CqlView::BigInt(i) => json_int(i),
        CqlView::SmallInt(i) => json_int(i),
        CqlView::TinyInt(i) => json_int(i),
        CqlView::Float(n) => float_json(n),
        CqlView::Double(n) => float_json(n),
        CqlView::Text(s) => JsonView::String(s),
        CqlView::Ascii(s) => JsonView::String(s),
        CqlView::Uuid(bytes) => JsonView::String(uuid_text(bytes)),
        CqlView::Empty => JsonView::Null,
        CqlView::ListOf(items) => JsonView::Array(
            Seq::new(
                items.len(),
                |i: int|
                    if 0 <= i < items.len() {
                        cql_json(items[i])
                    } else {
                        JsonView::Null
                    },
            ),
        ),
        CqlView::SetOf(items) => JsonView::Array(
            Seq::new(
                items.len(),
                |i: int|
                    if 0 <= i < items.len() {
                        cql_json(items[i])
                    } else {
                        JsonView::Null
                    },
            ),
        ),
        CqlView::MapOf(pairs) => JsonView::Array(
            Seq::new(
                pairs.len(),
                |i: int|
                    if 0 <= i < pairs.len() {
                        JsonView::Array(seq![cql_json(pairs[i].0), cql_json(pairs[i].1)])
                    } else {
                        JsonView::Null
                    },
            ),
        ),
        CqlView::Other(text) => JsonView::String(text),
    }
}

/// An integer as JSON.
fn int_to_json(i: i64) -> (value: Json)
    ensures
        value@ == json_int(i as int),
{
    if i < 0 {
        Json::Number(JsonNumber::NegInt(i))
    } else {
        Json::Number(JsonNumber::PosInt(i as u64))
    }
}

/// A floating point number as JSON.
fn float_to_json(n: &Option<serde_json::Number>) -> (value: Json)
    ensures
        value@ == float_json(float_view(*n)),
{
    match n {
        Some(x) => Json::Number(JsonNumber::Float(x.clone())),
        None => Json::Null,
    }
}

/// Both sides of a pair of a map are smaller than the map.
proof fn lemma_pair_smaller(value: Cql, i: int)
    requires
        value is MapOf,
        0 <= i < value->MapOf_0@.len(),
    ensures
        decreases_to!(value => value->MapOf_0@[i].0),
        decreases_to!(value => value->MapOf_0@[i].1),
{
    let pairs = value->MapOf_0;
    assert(decreases_to!(value => value->MapOf_0));
    assert(decreases_to!(pairs => pairs@));
    assert(decreases_to!(pairs@ => pairs@[i]));
    assert(decreases_to!(pairs@[i] => pairs@[i].0));
    assert(decreases_to!(pairs@[i] => pairs@[i].1));
}

/// Turns the items of a list or a set into their natural JSON forms.
fn items_to_json(items: &Vec<Cql>) -> (values: Vec<Json>)
    ensures
        values@.len() == items@.len(),
        forall|k: int| 0 <= k < items@.len() ==> (#[trigger] values@[k])@ == cql_json(items@[k]@),
    decreases items,
{
    let mut values: Vec<Json> = Vec::new();
    let mut i: usize = 0;
    while i < items.len()
        invariant
            0 <= i <= items@.len(),
            values@.len() == i,
            forall|k: int| 0 <= k < i ==> (#[trigger] values@[k])@ == cql_json(items@[k]@),
        decreases items@.len() - i,
    {
        proof {
            assert(decreases_to!(items => items@));
            assert(decreases_to!(items@ => items@[i as int]));
        }
        values.push(cql_to_json(&items[i]));
        i += 1;
    }
    values
}

/// Turns a CQL value into its natural JSON form. Types without one become the
/// string of their debug form, so there is always a value.
pub fn cql_to_json(v: &Cql) -> (value: Json)
    ensures
        value@ == cql_json(v@),
    decreases v,
{
    match v {
        Cql::Boolean(b) => Json::Bool(*b),
        Cql::Int(i) => int_to_json(*i as i64),
        Cql::BigInt(i) => int_to_json(*i),
        Cql::SmallInt(i) => int_to_json(*i as i64),
        Cql::TinyInt(i) => int_to_json(*i as i64),
        Cql::Float(n) => float_to_json(n),
        Cql::Double(n) => float_to_json(n),
        Cql::Text(s) => Json::String(s.clone()),
        Cql::Ascii(s) => Json::String(s.clone()),
        Cql::Uuid(bytes) => Json::String(uuid_string(bytes)),
        Cql::Empty => Json::Null,
        Cql::ListOf(items) => {
            proof {
                assert(decreases_to!(v => v->ListOf_0));
            }
            let values: Vec<Json> = items_to_json(items);
            proof {
                lemma_array_view(values);
                assert(json_views(values@) =~= cql_json(v@)->Array_0);
            }
            Json::Array(values)
        },
        Cql::SetOf(items) => {
            proof {
                assert(decreases_to!(v => v->SetOf_0));
            }
            let values: Vec<Json> = items_to_json(items);
            proof {
                lemma_array_view(values);
                assert(json_views(values@) =~= cql_json(v@)->Array_0);
            }
            Json::Array(values)
        },
        Cql::MapOf(pairs) => {
            let mut values: Vec<Json> = Vec::new();
            let mut i: usize = 0;
            while i < pairs.len()
                invariant
                    0 <= i <= pairs@.len(),
                    *v == Cql::MapOf(*pairs),
                    values@.len() == i,
                    forall|k: int|
                        0 <= k < i ==> (#[trigger] values@[k])@ == JsonView::Array(
                            seq![cql_json(pairs@[k].0@), cql_json(pairs@[k].1@)],
                        ),
                decreases pairs@.len() - i,
            {
                proof {
                    lemma_pair_smaller(*v, i as int);
                }
                let mut pair: Vec<Json> = Vec::new();
                pair.push(cql_to_json(&pairs[i].0));
                pair.push(cql_to_json(&pairs[i].1));
                proof {
                    lemma_array_view(pair);
                    assert(json_views(pair@) =~= seq![
                        cql_json(pairs@[i as int].0@),
                        cql_json(pairs@[i as int].1@),
                    ]);
                }
                values.push(Json::Array(pair));
                i += 1;
            }
            proof {
                lemma_array_view(values);
                assert(json_views(values@) =~= cql_json(v@)->Array_0);
            }
            Json::Array(values)
        },
        Cql::Other(other) => Json::String(debug_string(other)),
    }
}

// ── rows as JSON ────────────────────────────────────────────────────────────

/// The rows that a statement returned: the names of the columns and, in each row,
/// the values of the columns. A null value is `None`.
#[derive(Debug, PartialEq)]
pub struct ResultSet {
    pub names: Vec<String>,
    pub rows: Vec<Vec<Option<Cql>>>,
}

/// The view of a [`ResultSet`].
#[verifier::ext_equal]
pub struct ResultView {
    pub names: Seq<Seq<char>>,
    pub rows: Seq<Seq<Option<CqlView>>>,
}

/// The value of a column that may be null.
pub open spec fn cell_view(cell: Option<Cql>) -> Option<CqlView> {
    match cell {
        Some(v) => Some(v@),
        None => None,
    }
}

/// The values of a row's columns.
pub open spec fn row_view(row: Seq<Option<Cql>>) -> Seq<Option<CqlView>> {
    row.map_values(|c: Option<Cql>| cell_view(c))
}

impl View for ResultSet {
    type V = ResultView;

    open spec fn view(&self) -> ResultView {
        ResultView {
            names: string_views(self.names@),
            rows: self.rows@.map_values(|r: Vec<Option<Cql>>| row_view(r@)),
        }
    }
}

/// The name of a column: its number where the result names fewer columns.
pub open spec fn column_name(names: Seq<Seq<char>>, i: int) -> Seq<char> {
    if 0 <= i < names.len() {
        names[i]
    } else {
        natural_text(i as nat)
    }
}

/// A column's value as JSON.
pub open spec fn cell_json(cell: Option<CqlView>) -> JsonView {
    match cell {
        Some(v) => cql_json(v),
        None => JsonView::Null,
    }
}

/// The members of a row object: each column under its name, in the order of the
/// columns. Where columns share a name, the last one counts.
pub open spec fn row_members(names: Seq<Seq<char>>, cells: Seq<Option<CqlView>>) -> Seq<
    (Seq<char>, JsonView),
>
    decreases cells.len(),
{
    if cells.len() == 0 {
        seq![]
    } else {
        with_member(
            row_members(names, cells.drop_last()),
            column_name(names, cells.len() - 1),
            cell_json(cells.last()),
        )
    }
}

/// The row objects of a result.
pub open spec fn row_objects(result: ResultView) -> Seq<JsonView> {
    result.rows.map_values(
        |cells: Seq<Option<CqlView>>| JsonView::Object(row_members(result.names, cells)),
    )
}

/// The outcome of a statement as JSON: the rows, or that it was carried out, for a
/// statement without a result.
pub open spec fn outcome_json(result: Option<ResultView>) -> JsonView {
    match result {
        Some(r) => json_single("rows"@, JsonView::Array(row_objects(r))),
        None => json_single("ok"@, JsonView::Bool(true)),
    }
}

/// The view of a result that may be absent.
pub open spec fn optional_result(result: Option<ResultSet>) -> Option<ResultView> {
    match result {
        Some(r) => Some(r@),
        None => None,
    }
}

/// A column's value as JSON; a null value is `null`.
pub fn cell_to_json(cell: &Option<Cql>) -> (value: Json)
    ensures
        value@ == cell_json(cell_view(*cell)),
{
    match cell {
        Some(v) => cql_to_json(v),
        None => Json::Null,
    }
}

/// One row as an object keyed by column name.
pub fn row_to_json(names: &Vec<String>, row: &Vec<Option<Cql>>) -> (object: JsonObject)
    ensures
        object@ == row_members(string_views(names@), row_view(row@)),
{
    let ghost name_views = string_views(names@);
    let ghost cells = row_view(row@);
    let mut object: JsonObject = JsonObject::new();
    let mut i: usize = 0;
    while i < row.len()
        invariant
            0 <= i <= row@.len(),
            name_views == string_views(names@),
            cells == row_view(row@),
            object@ == row_members(name_views, cells.take(i as int)),
        decreases row@.len() - i,
    {
        let name: String = if i < names.len() {
            names[i].clone()
        } else {
            natural_to_string(i as u64)
        };
        let value: Json = cell_to_json(&row[i]);
        proof {
            assert(name@ == column_name(name_views, i as int));
            assert(cells.take(i + 1).drop_last() =~= cells.take(i as int));
            assert(cells.take(i + 1).last() == cell_view(row@[i as int]));
        }
        object.insert(name, value);
        i += 1;
    }
    proof {
        assert(cells.take(row@.len() as int) =~= cells);
    }
    object
}

/// The outcome of a statement as JSON. Rows become an array of row objects; a
/// statement without a result gives `{"ok": true}`.
pub fn outcome_to_json(result: &Option<ResultSet>) -> (value: Json)
    ensures
        value@ == outcome_json(optional_result(*result)),
{
    match result {
        Some(set) => {
            let mut rows: Vec<Json> = Vec::new();
            let mut i: usize = 0;
            while i < set.rows.len()
                invariant
                    0 <= i <= set.rows@.len(),
                    rows@.len() == i,
                    forall|k: int|
                        0 <= k < i ==> (#[trigger] rows@[k])@ == JsonView::Object(
                            row_members(set@.names, row_view(set.rows@[k]@)),
                        ),
                decreases set.rows@.len() - i,
            {
                rows.push(Json::Object(row_to_json(&set.names, &set.rows[i])));
                i += 1;
            }
            proof {
                lemma_array_view(rows);
                assert(json_views(rows@) =~= row_objects(set@));
            }
            Json::single("rows", Json::Array(rows))
        },
        None => Json::single("ok", Json::Bool(true)),
    }
}

// ── laws ────────────────────────────────────────────────────────────────────

/// The keys of a row object are distinct.
proof fn lemma_row_keys_differ(names: Seq<Seq<char>>, cells: Seq<Option<CqlView>>)
    ensures
        distinct_keys(row_members(names, cells)),
    decreases cells.len(),
{
    if cells.len() > 0 {
        lemma_row_keys_differ(names, cells.drop_last());
        lemma_with_member(
            row_members(names, cells.drop_last()),
            column_name(names, cells.len() - 1),
            cell_json(cells.last()),
            seq![],
        );
    }
}

/// A row object answers each column's name with that column's value. Where columns
/// share a name, the last of them answers.
pub proof fn law_row_is_keyed_by_column_name(
    names: Seq<Seq<char>>,
    cells: Seq<Option<CqlView>>,
    i: int,
)
    requires
        0 <= i < cells.len(),
        forall|k: int| i < k < cells.len() ==> #[trigger] column_name(names, k) != column_name(names, i),
    ensures
        distinct_keys(row_members(names, cells)),
        member(row_members(names, cells), column_name(names, i)) == Some(cell_json(cells[i])),
    decreases cells.len(),
{
    lemma_row_keys_differ(names, cells);
    let shorter = cells.drop_last();
    lemma_row_keys_differ(names, shorter);
    lemma_with_member(
        row_members(names, shorter),
        column_name(names, cells.len() - 1),
        cell_json(cells.last()),
        column_name(names, i),
    );
    if i < cells.len() - 1 {
        law_row_is_keyed_by_column_name(names, shorter, i);
        assert(shorter[i] == cells[i]);
    }
}

/// Where the columns have different names, a row object has one member for each
/// column, in the order of the columns.
pub proof fn law_row_keeps_the_order_of_columns(
    names: Seq<Seq<char>>,
    cells: Seq<Option<CqlView>>,
)
    requires
        forall|i: int, j: int|
            0 <= i < j < cells.len() ==> #[trigger] column_name(names, i)
                != #[trigger] column_name(names, j),
    ensures
        row_members(names, cells) == Seq::new(
            cells.len(),
            |i: int| (column_name(names, i), cell_json(cells[i])),
        ),
    decreases cells.len(),
{
    let all = Seq::new(cells.len(), |i: int| (column_name(names, i), cell_json(cells[i])));
    if cells.len() > 0 {
        let shorter = cells.drop_last();
        let last = cells.len() - 1;
        law_row_keeps_the_order_of_columns(names, shorter);
        let before = row_members(names, shorter);
        if has_key(before, column_name(names, last)) {
            let k = key_index(before, column_name(names, last));
            assert(before[k].0 == column_name(names, k));
        }
        assert(row_members(names, cells) =~= all);
    } else {
        assert(row_members(names, cells) =~= all);
    }
}

/// The converter keeps the shape of a collection: a list or a set becomes an array
/// with one document for each item, in their order; a map, an array with one pair
/// for each entry.
pub proof fn law_collections_keep_their_items(items: Seq<CqlView>, pairs: Seq<(CqlView, CqlView)>)
    ensures
        cql_json(CqlView::ListOf(items)) == JsonView::Array(
            items.map_values(|v: CqlView| cql_json(v)),
        ),
        cql_json(CqlView::SetOf(items)) == cql_json(CqlView::ListOf(items)),
        cql_json(CqlView::MapOf(pairs)) == JsonView::Array(
            pairs.map_values(
                |p: (CqlView, CqlView)| JsonView::Array(seq![cql_json(p.0), cql_json(p.1)]),
            ),
        ),
{
    let documents = items.map_values(|v: CqlView| cql_json(v));
    assert(cql_json(CqlView::ListOf(items))->Array_0 =~= documents);
    assert(cql_json(CqlView::SetOf(items))->Array_0 =~= documents);
    assert(cql_json(CqlView::MapOf(pairs))->Array_0 =~= pairs.map_values(
        |p: (CqlView, CqlView)| JsonView::Array(seq![cql_json(p.0), cql_json(p.1)]),
    ));
}

/// Each CQL value becomes its natural JSON type: a boolean that boolean, an integer of
/// any width that integer, a text that string, a floating point number that number,
/// and a type without a natural form the string of its debug form.
pub proof fn law_scalars_keep_their_values(
    b: bool,
    i: int,
    s: Seq<char>,
    n: NumberView,
    bytes: Seq<u8>,
)
    ensures
        cql_json(CqlView::Boolean(b)) == JsonView::Bool(b),
        cql_json(CqlView::Int(i)) == JsonView::Number(NumberView::Int(i)),
        cql_json(CqlView::BigInt(i)) == JsonView::Number(NumberView::Int(i)),
        cql_json(CqlView::SmallInt(i)) == JsonView::Number(NumberView::Int(i)),
        cql_json(CqlView::TinyInt(i)) == JsonView::Number(NumberView::Int(i)),
        cql_json(CqlView::Float(Some(n))) == JsonView::Number(n),
        cql_json(CqlView::Double(Some(n))) == JsonView::Number(n),
        cql_json(CqlView::Text(s)) == JsonView::String(s),
        cql_json(CqlView::Ascii(s)) == JsonView::String(s),
        cql_json(CqlView::Other(s)) == JsonView::String(s),
        cql_json(CqlView::Uuid(bytes)) == JsonView::String(uuid_text(bytes)),
{
}

/// Only an empty value, an absent cell or a floating point number that JSON lacks
/// becomes null, and each of these does.
pub proof fn law_null_stands_for_no_value(v: CqlView)
    ensures
        cql_json(v) == JsonView::Null <==> (v is Empty || v == CqlView::Float(None) || v
            == CqlView::Double(None)),
        cell_json(None) == JsonView::Null,
        cell_json(Some(v)) == cql_json(v),
{
}

/// Values of one scalar type that differ become documents that differ.
pub proof fn law_different_scalars_stay_different(v: CqlView, w: CqlView)
    requires
        cql_json(v) == cql_json(w),
        v is Boolean && w is Boolean || v is Int && w is Int || v is BigInt && w is BigInt || v
            is SmallInt && w is SmallInt || v is TinyInt && w is TinyInt || v is Float && w
            is Float || v is Double && w is Double || v is Text && w is Text || v is Ascii && w
            is Ascii || v is Other && w is Other,
    ensures
        v == w,
{
}

/// Items of a list or a set, and pairs of a map, are converted one by one: there are
/// as many, each in its place and on its own.
pub proof fn law_items_are_converted_in_place(
    items: Seq<CqlView>,
    pairs: Seq<(CqlView, CqlView)>,
    i: int,
)
    ensures
        cql_json(CqlView::ListOf(items)) matches JsonView::Array(list) && list.len() == items.len()
            && (0 <= i < items.len() ==> list[i] == cql_json(items[i])),
        cql_json(CqlView::SetOf(items)) matches JsonView::Array(list) && list.len() == items.len()
            && (0 <= i < items.len() ==> list[i] == cql_json(items[i])),
        cql_json(CqlView::MapOf(pairs)) matches JsonView::Array(list) && list.len() == pairs.len()
            && (0 <= i < pairs.len() ==> list[i] == JsonView::Array(
            seq![cql_json(pairs[i].0), cql_json(pairs[i].1)],
        )),
{
}

/// The value of a hexadecimal digit in lower case.
pub open spec fn hex_value(c: char) -> int {
    if '0' <= c <= '9' {
        c as int - '0' as int
    } else {
        c as int - 'a' as int + 10
    }
}

/// Two hexadecimal digits in lower case stand for each byte.
pub proof fn law_hexadecimal_reads_back(bytes: Seq<u8>, i: int)
    requires
        0 <= i < bytes.len(),
    ensures
        hex_text(bytes).len() == 2 * bytes.len(),
        16 * hex_value(hex_text(bytes)[2 * i]) + hex_value(hex_text(bytes)[2 * i + 1]) == bytes[i],
        '0' <= hex_text(bytes)[2 * i] <= '9' || 'a' <= hex_text(bytes)[2 * i] <= 'f',
        '0' <= hex_text(bytes)[2 * i + 1] <= '9' || 'a' <= hex_text(bytes)[2 * i + 1] <= 'f',
{
    let high = bytes[i] as int / 16;
    let low = bytes[i] as int % 16;
    assert((2 * i) / 2 == i && (2 * i + 1) / 2 == i);
    assert((2 * i) % 2 == 0 && (2 * i + 1) % 2 == 1);
    assert(0 <= high < 16 && 0 <= low < 16);
    assert(hex_text(bytes)[2 * i] == hex_digit(high));
    assert(hex_text(bytes)[2 * i + 1] == hex_digit(low));
    assert(hex_value(hex_digit(high)) == high);
    assert(hex_value(hex_digit(low)) == low);
}

/// A UUID is written in 36 characters: its bytes in hexadecimal, in their order, with
/// hyphens behind the first four, six, eight and ten.
pub proof fn law_uuids_are_hyphenated(bytes: Seq<u8>)
    requires
        bytes.len() == 16,
    ensures
        uuid_text(bytes).len() == 36,
        uuid_text(bytes)[8] == '-' && uuid_text(bytes)[13] == '-' && uuid_text(bytes)[18] == '-'
            && uuid_text(bytes)[23] == '-',
        uuid_text(bytes).subrange(0, 8) + uuid_text(bytes).subrange(9, 13) + uuid_text(
            bytes,
        ).subrange(14, 18) + uuid_text(bytes).subrange(19, 23) + uuid_text(bytes).subrange(24, 36)
            == hex_text(bytes),
{
    let text = uuid_text(bytes);
    let plain = text.subrange(0, 8) + text.subrange(9, 13) + text.subrange(14, 18)
        + text.subrange(19, 23) + text.subrange(24, 36);
    assert(plain =~= hex_text(bytes));
}

/// A column has the name that the result gives it, or its number where the result
/// names fewer columns.
pub proof fn law_columns_are_named_by_the_result(names: Seq<Seq<char>>, i: int)
    requires
        0 <= i,
    ensures
        i < names.len() ==> column_name(names, i) == names[i],
        i >= names.len() ==> numeral_value(column_name(names, i)) == i && column_name(names, i)
            == natural_text(i as nat),
{
    law_numerals_read_back(i as nat);
}

/// A row object has no key but the names of its columns, and no more members than
/// there are columns.
pub proof fn law_row_has_only_its_columns(
    names: Seq<Seq<char>>,
    cells: Seq<Option<CqlView>>,
    k: int,
)
    requires
        0 <= k < row_members(names, cells).len(),
    ensures
        row_members(names, cells).len() <= cells.len(),
        exists|i: int|
            0 <= i < cells.len() && #[trigger] column_name(names, i) == row_members(names, cells)[k].0,
    decreases cells.len(),
{
    let members = row_members(names, cells);
    if cells.len() > 0 {
        let shorter = cells.drop_last();
        let before = row_members(names, shorter);
        let last = cells.len() - 1;
        if before.len() > 0 {
            law_row_has_only_its_columns(names, shorter, 0);
        }
        if k < before.len() && members[k].0 == before[k].0 {
            law_row_has_only_its_columns(names, shorter, k);
            let i = choose|i: int|
                0 <= i < shorter.len() && #[trigger] column_name(names, i) == before[k].0;
            assert(0 <= i < cells.len() && column_name(names, i) == members[k].0);
        } else {
            assert(column_name(names, last) == members[k].0);
        }
    }
}

/// A statement that returned rows gives them all under `rows`, one object for each row
/// in its place; a statement without a result is told to be carried out.
pub proof fn law_outcomes_hold_every_row(result: ResultView, i: int)
    ensures
        outcome_json(Some(result)) matches JsonView::Object(members) && members.len() == 1
            && members[0].0 == "rows"@ && (members[0].1 matches JsonView::Array(rows) && rows.len()
            == result.rows.len() && (0 <= i < result.rows.len() ==> rows[i] == JsonView::Object(
            row_members(result.names, result.rows[i]),
        ))),
        outcome_json(None) == JsonView::Object(seq![("ok"@, JsonView::Bool(true))]),
        row_objects(result).len() == result.rows.len(),
        0 <= i < result.rows.len() ==> row_objects(result)[i] == JsonView::Object(
            row_members(result.names, result.rows[i]),
        ),
{
}

/// What the driver returned is what the contracts speak of: each value with its type,
/// each row with its columns, each column with its name.
pub proof fn law_results_are_what_they_hold(
    b: bool,
    big: i64,
    small: i32,
    short: i16,
    tiny: i8,
    n: serde_json::Number,
    s: String,
    bytes: [u8; 16],
    items: Vec<Cql>,
    pairs: Vec<(Cql, Cql)>,
    other: scylla::value::CqlValue,
    set: ResultSet,
    i: int,
    j: int,
)
    ensures
        Cql::Boolean(b)@ == CqlView::Boolean(b),
        Cql::Int(small)@ == CqlView::Int(small as int),
        Cql::BigInt(big)@ == CqlView::BigInt(big as int),
        Cql::SmallInt(short)@ == CqlView::SmallInt(short as int),
        Cql::TinyInt(tiny)@ == CqlView::TinyInt(tiny as int),
        Cql::Float(Some(n))@ == CqlView::Float(Some(number_view(n))),
        Cql::Float(None)@ == CqlView::Float(None),
        Cql::Double(Some(n))@ == CqlView::Double(Some(number_view(n))),
        Cql::Double(None)@ == CqlView::Double(None),
        Cql::Text(s)@ == CqlView::Text(s@),
        Cql::Ascii(s)@ == CqlView::Ascii(s@),
        Cql::Uuid(bytes)@ == CqlView::Uuid(bytes@),
        Cql::Empty@ == CqlView::Empty,
        Cql::Other(other)@ == CqlView::Other(debug_text(other)),
        Cql::ListOf(items)@ matches CqlView::ListOf(views) && views.len() == items@.len() && (0 <= i
            < items@.len() ==> views[i] == items@[i]@),
        Cql::SetOf(items)@ matches CqlView::SetOf(views) && views.len() == items@.len() && (0 <= i
            < items@.len() ==> views[i] == items@[i]@),
        Cql::MapOf(pairs)@ matches CqlView::MapOf(views) && views.len() == pairs@.len() && (0 <= i
            < pairs@.len() ==> views[i] == (pairs@[i].0@, pairs@[i].1@)),
        set@.names.len() == set.names@.len(),
        0 <= i < set.names@.len() ==> set@.names[i] == set.names@[i]@,
        set@.rows.len() == set.rows@.len(),
        0 <= i < set.rows@.len() ==> set@.rows[i].len() == set.rows@[i]@.len(),
        0 <= i < set.rows@.len() && 0 <= j < set.rows@[i]@.len() ==> set@.rows[i][j] == (
        match set.rows@[i]@[j] {
            Some(v) => Some(v@),
            None => None,
        }),
        optional_result(Some(set)) == Some(set@),
        optional_result(None) is None,
{
}

/// A further column leaves every member of a row object under its key, in its place. A
/// name that is new comes last; a name that is there takes the further column's value.
pub proof fn law_further_columns_keep_places(
    names: Seq<Seq<char>>,
    cells: Seq<Option<CqlView>>,
    cell: Option<CqlView>,
    k: int,
)
    requires
        0 <= k < row_members(names, cells).len(),
    ensures
        ({
            let name = column_name(names, cells.len() as int);
            let before = row_members(names, cells);
            let after = row_members(names, cells.push(cell));
            &&& after[k] == (if before[k].0 == name {
                (name, cell_json(cell))
            } else {
                before[k]
            })
            &&& before[k].0 == name ==> after.len() == before.len()
            &&& (forall|i: int| 0 <= i < before.len() ==> (#[trigger] before[i]).0 != name)
                ==> after == before + seq![(name, cell_json(cell))]
        }),
{
    assert(cells.push(cell).drop_last() =~= cells);
    lemma_row_keys_differ(names, cells);
    law_members_keep_their_places(
        row_members(names, cells),
        column_name(names, cells.len() as int),
        cell_json(cell),
        k,
    );
}

}
