//! What a command answers from the outcome of its statement.
use crate::commands::Answer;
use crate::json::codec::{lemma_nested_deeper, nested, parsed, written};
use crate::json::{
    has_key, json_array, json_at, json_get, json_single, json_views, key_index, lemma_array_view,
    lemma_key_index, Json, JsonNumber, JsonView, NumberView,
};
use crate::reply::{error_text, outcome_view, reply_json, Failure, FailureView};
use crate::rows::{
    cell_json, cell_to_json, column_name, json_int, law_row_has_only_its_columns,
    law_row_is_keyed_by_column_name, optional_result, outcome_json, outcome_to_json, row_members, row_objects, CqlView, ResultSet,
    ResultView,
};
use vstd::prelude::*;
use vstd::utf8::encode_utf8;

verus! {

/// The array under `rows`; empty for a statement without a result.
pub open spec fn rows_json(result: JsonView) -> JsonView {
    match json_get(result, "rows"@) {
        Some(rows) => rows,
        None => JsonView::Array(seq![]),
    }
}

/// The first row, or null.
pub open spec fn first_row_json(result: JsonView) -> JsonView {
    match json_at(rows_json(result), 0) {
        Some(row) => row,
        None => JsonView::Null,
    }
}

/// The column of the first row, or `absent`.
pub open spec fn first_row_column(result: JsonView, column: Seq<char>, absent: JsonView) -> JsonView {
    match json_at(rows_json(result), 0) {
        Some(row) => match json_get(row, column) {
            Some(v) => v,
            None => absent,
        },
        None => absent,
    }
}

/// The first column of the first row, or null. It is taken from the row itself, so
/// columns that share a name do not matter.
pub open spec fn first_value_json(result: Option<ResultView>) -> JsonView {
    match result {
        Some(r) => if r.rows.len() > 0 && r.rows[0].len() > 0 {
            cell_json(r.rows[0][0])
        } else {
            JsonView::Null
        },
        None => JsonView::Null,
    }
}

/// The column of each row that has it, in the order of the rows.
pub open spec fn column_of_each(rows: Seq<JsonView>, column: Seq<char>) -> Seq<JsonView>
    decreases rows.len(),
{
    if rows.len() == 0 {
        seq![]
    } else {
        match json_get(rows.last(), column) {
            Some(v) => column_of_each(rows.drop_last(), column).push(v),
            None => column_of_each(rows.drop_last(), column),
        }
    }
}

/// The column of each row of a result.
pub open spec fn column_json(result: JsonView, column: Seq<char>) -> JsonView {
    match json_array(rows_json(result)) {
        Some(rows) => JsonView::Array(column_of_each(rows, column)),
        None => JsonView::Array(seq![]),
    }
}

/// The object that answers with a value.
pub open spec fn value_json(value: JsonView) -> JsonView {
    json_single("value"@, value)
}

/// What a command answers when its statement gave the result.
pub open spec fn answer_json(answer: Answer, outcome: Option<ResultView>) -> JsonView {
    let result = outcome_json(outcome);
    match answer {
        Answer::Alive => value_json(JsonView::Bool(true)),
        Answer::ServerVersion => value_json(
            first_row_column(result, "release_version"@, JsonView::Null),
        ),
        Answer::Rows => value_json(rows_json(result)),
        Answer::FirstRow => value_json(first_row_json(result)),
        Answer::FirstValue => value_json(first_value_json(outcome)),
        Answer::Done => json_single("ok"@, JsonView::Bool(true)),
        Answer::KeyspaceNames => value_json(column_json(result, "keyspace_name"@)),
        Answer::TableNames => value_json(column_json(result, "table_name"@)),
        Answer::Count => value_json(first_row_column(result, "c"@, json_int(0))),
    }
}

/// What a command answers from the outcome of its statement. A statement that
/// failed fails the command, except that it tells a cluster that does not answer.
pub open spec fn answered(
    answer: Answer,
    outcome: Result<Option<ResultView>, FailureView>,
) -> Result<JsonView, FailureView> {
    match outcome {
        Ok(result) => Ok(answer_json(answer, result)),
        Err(e) => if answer == Answer::Alive {
            Ok(value_json(JsonView::Bool(false)))
        } else {
            Err(e)
        },
    }
}

/// The view of the outcome of a statement.
pub open spec fn result_view(outcome: Result<Option<ResultSet>, Failure>) -> Result<
    Option<ResultView>,
    FailureView,
> {
    match outcome {
        Ok(result) => Ok(optional_result(result)),
        Err(e) => Err(e@),
    }
}

/// The `rows` array of a result; empty for a statement without a result.
pub fn rows_of(result: &Json) -> (rows: Json)
    ensures
        rows@ == rows_json(result@),
{
    match result.get("rows") {
        Some(rows) => rows.clone(),
        None => {
            let none: Vec<Json> = Vec::new();
            proof {
                lemma_array_view(none);
                assert(json_views(none@) =~= Seq::<JsonView>::empty());
            }
            Json::Array(none)
        },
    }
}

/// The column of the first row, or `absent`.
fn column_of_first(result: &Json, column: &str, absent: Json) -> (value: Json)
    ensures
        value@ == first_row_column(result@, column@, absent@),
{
    let rows: Json = rows_of(result);
    match rows.at(0) {
        Some(row) => match row.get(column) {
            Some(v) => v.clone(),
            None => absent,
        },
        None => absent,
    }
}

/// The first column of the first row, or null.
fn first_value(result: &Option<ResultSet>) -> (value: Json)
    ensures
        value@ == first_value_json(optional_result(*result)),
{
    match result {
        Some(set) => if set.rows.len() > 0 && set.rows[0].len() > 0 {
            cell_to_json(&set.rows[0][0])
        } else {
            Json::Null
        },
        None => Json::Null,
    }
}

/// The column of each row that has it.
fn column_of_rows(result: &Json, column: &str) -> (values: Json)
    ensures
        values@ == column_json(result@, column@),
{
    let rows: Json = rows_of(result);
    let mut values: Vec<Json> = Vec::new();
    proof {
        assert(json_views(values@) =~= Seq::<JsonView>::empty());
    }
    if let Some(items) = rows.as_array() {
        let ghost views = json_views(items@);
        let mut i: usize = 0;
        while i < items.len()
            invariant
                0 <= i <= items@.len(),
                views == json_views(items@),
                json_views(values@) == column_of_each(views.take(i as int), column@),
            decreases items@.len() - i,
        {
            let ghost before = json_views(values@);
            proof {
                assert(views.take(i + 1).drop_last() =~= views.take(i as int));
                assert(views.take(i + 1).last() == items@[i as int]@);
            }
            if let Some(v) = items[i].get(column) {
                values.push(v.clone());
                proof {
                    assert(json_views(values@) =~= before.push(v@));
                }
            }
            i += 1;
        }
        proof {
            assert(views.take(items@.len() as int) =~= views);
        }
    }
    proof {
        lemma_array_view(values);
    }
    Json::Array(values)
}

/// Answers a command from the outcome of its statement.
pub fn answer_from(answer: Answer, outcome: Result<Option<ResultSet>, Failure>) -> (reply: Result<
    Json,
    Failure,
>)
    ensures
        outcome_view(reply) == answered(answer, result_view(outcome)),
{
    let set: Option<ResultSet> = match outcome {
        Ok(set) => set,
        Err(e) => {
            return match answer {
                Answer::Alive => Ok(Json::single("value", Json::Bool(false))),
                _ => Err(e),
            };
        },
    };
    let result: Json = outcome_to_json(&set);
    let reply: Json = match answer {
        Answer::Alive => Json::single("value", Json::Bool(true)),
        Answer::ServerVersion => Json::single(
            "value",
            column_of_first(&result, "release_version", Json::Null),
        ),
        Answer::Rows => Json::single("value", rows_of(&result)),
        Answer::FirstRow => {
            let rows: Json = rows_of(&result);
            match rows.at(0) {
                Some(row) => Json::single("value", row.clone()),
                None => Json::single("value", Json::Null),
            }
        },
        Answer::FirstValue => Json::single("value", first_value(&set)),
        Answer::Done => Json::single("ok", Json::Bool(true)),
        Answer::KeyspaceNames => Json::single("value", column_of_rows(&result, "keyspace_name")),
        Answer::TableNames => Json::single("value", column_of_rows(&result, "table_name")),
        Answer::Count => {
            let zero: Json = Json::Number(JsonNumber::PosInt(0));
            Json::single("value", column_of_first(&result, "c", zero))
        },
    };
    Ok(reply)
}

// ── laws ────────────────────────────────────────────────────────────────────

/// The object with one member answers its key, and no other.
proof fn lemma_single(key: Seq<char>, value: JsonView, other: Seq<char>)
    ensures
        json_get(json_single(key, value), key) == Some(value),
        other != key ==> json_get(json_single(key, value), other) is None,
{
    let members = seq![(key, value)];
    assert(members[0].0 == key);
    lemma_key_index(members, key, 0);
}

/// The rows that a statement returned come back as row objects, one for each row, in
/// their order. A statement without a result comes back as no rows.
pub proof fn law_rows_come_back_in_order(result: ResultView)
    ensures
        rows_json(outcome_json(Some(result))) == JsonView::Array(row_objects(result)),
        rows_json(outcome_json(None)) == JsonView::Array(seq![]),
{
    lemma_single("rows"@, JsonView::Array(row_objects(result)), seq![]);
    reveal_strlit("rows");
    reveal_strlit("ok");
    assert("ok"@.len() != "rows"@.len());
    lemma_single("ok"@, JsonView::Bool(true), "rows"@);
}

/// The first value is the value of the first column of the first row, whatever the
/// columns are named.
pub proof fn law_first_value_is_the_first_column(result: ResultView)
    requires
        result.rows.len() > 0,
        result.rows[0].len() > 0,
    ensures
        answered(Answer::FirstValue, Ok(Some(result))) == Ok::<JsonView, FailureView>(
            value_json(cell_json(result.rows[0][0])),
        ),
{
}

/// The first value is the first member of the first row object, where no later
/// column has the first column's name.
pub proof fn law_first_value_heads_the_first_row(result: ResultView)
    requires
        result.rows.len() > 0,
        result.rows[0].len() > 0,
        forall|k: int|
            0 < k < result.rows[0].len() ==> #[trigger] column_name(result.names, k)
                != column_name(result.names, 0),
    ensures
        first_row_json(outcome_json(Some(result))) matches JsonView::Object(members)
            && members.len() > 0 && members[0] == (
            column_name(result.names, 0),
            first_value_json(Some(result)),
        ),
{
    law_first_row_is_the_first(result);
    lemma_first_member(result.names, result.rows[0]);
}

/// The first member of a row object is its first column, unless a later column has
/// the same name.
proof fn lemma_first_member(names: Seq<Seq<char>>, cells: Seq<Option<CqlView>>)
    requires
        cells.len() > 0,
        forall|k: int|
            0 < k < cells.len() ==> #[trigger] column_name(names, k) != column_name(names, 0),
    ensures
        row_members(names, cells).len() > 0,
        row_members(names, cells)[0] == (column_name(names, 0), cell_json(cells[0])),
    decreases cells.len(),
{
    let shorter = cells.drop_last();
    if cells.len() > 1 {
        lemma_first_member(names, shorter);
        let before = row_members(names, shorter);
        let name = column_name(names, cells.len() - 1);
        if has_key(before, name) {
            let k = key_index(before, name);
            assert(before[k].0 == name);
            assert(k != 0);
        }
        assert(shorter[0] == cells[0]);
    } else {
        assert(row_members(names, shorter) =~= Seq::<(Seq<char>, JsonView)>::empty());
        assert(!has_key(row_members(names, shorter), column_name(names, 0)));
    }
}

/// No row gives no first row and no first value: both are null, and a count is zero.
pub proof fn law_no_rows_are_answered_with_null(result: ResultView)
    requires
        result.rows.len() == 0,
    ensures
        first_row_json(outcome_json(Some(result))) == JsonView::Null,
        first_value_json(Some(result)) == JsonView::Null,
        first_row_column(outcome_json(Some(result)), "c"@, json_int(0)) == json_int(0),
{
    law_rows_come_back_in_order(result);
}

/// The first row is the row object of the first row.
pub proof fn law_first_row_is_the_first(result: ResultView)
    requires
        result.rows.len() > 0,
    ensures
        first_row_json(outcome_json(Some(result))) == JsonView::Object(
            row_members(result.names, result.rows[0]),
        ),
{
    law_rows_come_back_in_order(result);
}

/// A column that every row has, and whose name no later column shares, is listed
/// with its value in each row, in the order of the rows.
pub proof fn law_a_column_is_listed_row_by_row(result: ResultView, column: int)
    requires
        0 <= column,
        forall|i: int| 0 <= i < result.rows.len() ==> column < (#[trigger] result.rows[i]).len(),
        forall|i: int, k: int|
            0 <= i < result.rows.len() && column < k < (#[trigger] result.rows[i]).len()
                ==> #[trigger] column_name(result.names, k) != column_name(result.names, column),
    ensures
        column_json(outcome_json(Some(result)), column_name(result.names, column))
            == JsonView::Array(
            result.rows.map_values(|cells: Seq<Option<CqlView>>| cell_json(cells[column])),
        ),
{
    law_rows_come_back_in_order(result);
    lemma_column_of_each(result, column, result.rows.len());
    assert(row_objects(result).take(result.rows.len() as int) =~= row_objects(result));
    assert(result.rows.take(result.rows.len() as int) =~= result.rows);
}

/// The same for the first `n` rows.
proof fn lemma_column_of_each(result: ResultView, column: int, n: nat)
    requires
        0 <= column,
        n <= result.rows.len(),
        forall|i: int| 0 <= i < result.rows.len() ==> column < (#[trigger] result.rows[i]).len(),
        forall|i: int, k: int|
            0 <= i < result.rows.len() && column < k < (#[trigger] result.rows[i]).len()
                ==> #[trigger] column_name(result.names, k) != column_name(result.names, column),
    ensures
        column_of_each(
            row_objects(result).take(n as int),
            column_name(result.names, column),
        ) == result.rows.take(n as int).map_values(
            |cells: Seq<Option<CqlView>>| cell_json(cells[column]),
        ),
    decreases n,
{
    let name = column_name(result.names, column);
    let objects = row_objects(result).take(n as int);
    let values = result.rows.take(n as int).map_values(
        |cells: Seq<Option<CqlView>>| cell_json(cells[column]),
    );
    if n > 0 {
        let last = n - 1;
        lemma_column_of_each(result, column, last as nat);
        assert(objects.drop_last() =~= row_objects(result).take(last));
        assert(objects.last() == JsonView::Object(
            row_members(result.names, result.rows[last]),
        ));
        assert(column < result.rows[last].len());
        law_row_is_keyed_by_column_name(result.names, result.rows[last], column);
    }
    assert(column_of_each(objects, name) =~= values);
}

/// A cluster that answers is alive, one that does not is not: asking never fails.
pub proof fn law_asking_for_life_never_fails(outcome: Result<Option<ResultView>, FailureView>)
    ensures
        answered(Answer::Alive, outcome) == Ok::<JsonView, FailureView>(
            value_json(JsonView::Bool(outcome is Ok)),
        ),
{
}

/// A statement that fails makes every other command fail for the same reason, and
/// the reply is an object with the reason's message under `error`.
pub proof fn law_failures_are_told(answer: Answer, failure: FailureView)
    requires
        answer != Answer::Alive,
    ensures
        answered(answer, Err(failure)) == Err::<JsonView, FailureView>(failure),
        json_get(reply_json(answered(answer, Err(failure))), "error"@) == Some(
            JsonView::String(error_text(failure)),
        ),
{
    lemma_single("error"@, JsonView::String(error_text(failure)), seq![]);
}

/// Whether the values of all columns nest at most `depth` deep as documents.
pub open spec fn cells_nested(result: ResultView, depth: nat) -> bool {
    forall|i: int, j: int|
        0 <= i < result.rows.len() && 0 <= j < result.rows[i].len() ==> nested(
            cell_json(#[trigger] result.rows[i][j]),
            depth,
        )
}

/// A row object nests one level deeper than its columns.
proof fn lemma_row_nested(names: Seq<Seq<char>>, cells: Seq<Option<CqlView>>, depth: nat)
    requires
        forall|j: int| 0 <= j < cells.len() ==> nested(cell_json(#[trigger] cells[j]), depth),
    ensures
        forall|k: int|
            0 <= k < row_members(names, cells).len() ==> nested(
                (#[trigger] row_members(names, cells)[k]).1,
                depth,
            ),
        nested(JsonView::Object(row_members(names, cells)), depth + 1),
    decreases cells.len(),
{
    let members = row_members(names, cells);
    if cells.len() > 0 {
        let shorter = cells.drop_last();
        assert forall|j: int| 0 <= j < shorter.len() implies nested(
            cell_json(#[trigger] shorter[j]),
            depth,
        ) by {
            assert(shorter[j] == cells[j]);
        }
        lemma_row_nested(names, shorter, depth);
        let before = row_members(names, shorter);
        assert(nested(cell_json(cells[cells.len() - 1]), depth));
        assert forall|k: int| 0 <= k < members.len() implies nested(
            (#[trigger] members[k]).1,
            depth,
        ) by {
            if k < before.len() && members[k] == before[k] {
                assert(nested(before[k].1, depth));
            } else {
                assert(members[k].1 == cell_json(cells.last()));
            }
        }
    }
}

/// What is picked out of each row nests no deeper than the columns.
proof fn lemma_column_nested(rows: Seq<JsonView>, column: Seq<char>, depth: nat)
    requires
        forall|i: int| 0 <= i < rows.len() ==> nested(#[trigger] rows[i], depth + 1),
    ensures
        forall|k: int|
            0 <= k < column_of_each(rows, column).len() ==> nested(
                #[trigger] column_of_each(rows, column)[k],
                depth,
            ),
    decreases rows.len(),
{
    if rows.len() > 0 {
        let shorter = rows.drop_last();
        assert forall|i: int| 0 <= i < shorter.len() implies nested(
            #[trigger] shorter[i],
            depth + 1,
        ) by {
            assert(shorter[i] == rows[i]);
        }
        lemma_column_nested(shorter, column, depth);
        lemma_member_nested(rows[rows.len() - 1], column, depth);
        let all = column_of_each(rows, column);
        let before = column_of_each(shorter, column);
        assert forall|k: int| 0 <= k < all.len() implies nested(#[trigger] all[k], depth) by {
            if k < before.len() {
                assert(all[k] == before[k]);
            }
        }
    }
}

/// A member nests one level less deep than its object.
proof fn lemma_member_nested(row: JsonView, column: Seq<char>, depth: nat)
    requires
        nested(row, depth + 1),
    ensures
        json_get(row, column) matches Some(v) ==> nested(v, depth),
{
    if let JsonView::Object(members) = row {
        if has_key(members, column) {
            let k = key_index(members, column);
            assert(members[k].0 == column);
            assert(nested(members[k].1, depth));
        }
    }
}

/// What a command answers nests at most three levels deeper than the columns.
proof fn lemma_answer_nested(answer: Answer, outcome: Option<ResultView>, depth: nat)
    requires
        outcome matches Some(result) ==> cells_nested(result, depth),
    ensures
        nested(answer_json(answer, outcome), depth + 3),
{
    let document = outcome_json(outcome);
    let rows = match outcome {
        Some(result) => row_objects(result),
        None => seq![],
    };
    assert(rows_json(document) == JsonView::Array(rows)) by {
        match outcome {
            Some(result) => law_rows_come_back_in_order(result),
            None => law_rows_come_back_in_order(ResultView { names: seq![], rows: seq![] }),
        }
    }
    assert forall|i: int| 0 <= i < rows.len() implies nested(#[trigger] rows[i], depth + 1) by {
        let result = outcome->Some_0;
        assert forall|j: int| 0 <= j < result.rows[i].len() implies nested(
            cell_json(#[trigger] result.rows[i][j]),
            depth,
        ) by {}
        lemma_row_nested(result.names, result.rows[i], depth);
    }
    assert(nested(rows_json(document), depth + 2));
    let value = match answer {
        Answer::ServerVersion => first_row_column(document, "release_version"@, JsonView::Null),
        Answer::Rows => rows_json(document),
        Answer::FirstRow => first_row_json(document),
        Answer::FirstValue => first_value_json(outcome),
        Answer::KeyspaceNames => column_json(document, "keyspace_name"@),
        Answer::TableNames => column_json(document, "table_name"@),
        Answer::Count => first_row_column(document, "c"@, json_int(0)),
        _ => JsonView::Bool(true),
    };
    assert(nested(value, depth + 2)) by {
        lemma_column_nested(rows, "keyspace_name"@, depth);
        lemma_column_nested(rows, "table_name"@, depth);
        if rows.len() > 0 {
            assert(nested(rows[0], depth + 1));
            lemma_nested_deeper(rows[0], depth + 1, depth + 2);
            lemma_member_nested(rows[0], "release_version"@, depth);
            lemma_member_nested(rows[0], "c"@, depth);
        }
        match answer {
            Answer::ServerVersion | Answer::FirstValue | Answer::Count => {
                assert(nested(value, depth));
                lemma_nested_deeper(value, depth, depth + 2);
            },
            Answer::KeyspaceNames | Answer::TableNames => {
                assert(nested(value, depth + 1));
                lemma_nested_deeper(value, depth + 1, depth + 2);
            },
            _ => {},
        }
    }
    assert(nested(value_json(value), depth + 3));
}

/// Every reply to a command that needs the cluster is JSON text that is accepted,
/// whatever failed, and whatever the rows hold whose values nest at most as deep as
/// leaves room for the row, the rows and the reply around them.
pub proof fn law_replies_are_accepted(
    answer: Answer,
    outcome: Result<Option<ResultView>, FailureView>,
    text: Seq<char>,
)
    requires
        written(reply_json(answered(answer, outcome)), text),
        outcome matches Ok(Some(result)) ==> cells_nested(result, 124),
    ensures
        parsed(encode_utf8(text)) is Some,
{
    let reply = reply_json(answered(answer, outcome));
    match outcome {
        Ok(result) => {
            lemma_answer_nested(answer, result, 124);
        },
        Err(e) => {
            assert(nested(JsonView::Bool(false), 126));
            assert(nested(JsonView::String(error_text(e)), 126));
            assert(nested(reply, 127));
        },
    }
}

/// Every reply to a command is an object with one member.
pub proof fn law_every_reply_is_an_object(
    answer: Answer,
    outcome: Result<Option<ResultView>, FailureView>,
)
    ensures
        reply_json(answered(answer, outcome)) matches JsonView::Object(members) && members.len() == 1,
{
}

/// A query is answered with one object for each row, in the order of the rows, under
/// `value`, and each object answers a column's name with the column's value (the last
/// column's, of those that share the name). A statement without a result gives no rows.
pub proof fn law_queries_are_answered_with_their_rows(result: ResultView, i: int, j: int)
    requires
        0 <= i < result.rows.len(),
        0 <= j < result.rows[i].len(),
        forall|k: int|
            j < k < result.rows[i].len() ==> #[trigger] column_name(result.names, k) != column_name(
                result.names,
                j,
            ),
    ensures
        answered(Answer::Rows, Ok(Some(result))) matches Ok(JsonView::Object(reply)) && reply.len()
            == 1 && reply[0].0 == "value"@ && (reply[0].1 matches JsonView::Array(rows)
            && rows.len() == result.rows.len() && json_get(rows[i], column_name(result.names, j))
            == Some(cell_json(result.rows[i][j]))),
        answered(Answer::Rows, Ok(None)) == Ok::<JsonView, FailureView>(
            JsonView::Object(seq![("value"@, JsonView::Array(seq![]))]),
        ),
{
    law_rows_come_back_in_order(result);
    law_row_is_keyed_by_column_name(result.names, result.rows[i], j);
}

/// All rows are answered with, whatever they hold: there are as many objects as rows,
/// none when there are none, and each is its own row's object.
pub proof fn law_no_row_is_left_out(result: ResultView, i: int)
    ensures
        answered(Answer::Rows, Ok(Some(result))) matches Ok(JsonView::Object(reply)) && reply.len()
            == 1 && reply[0].0 == "value"@ && (reply[0].1 matches JsonView::Array(rows)
            && rows.len() == result.rows.len() && (0 <= i < result.rows.len() ==> rows[i]
            == JsonView::Object(row_members(result.names, result.rows[i])))),
{
    law_rows_come_back_in_order(result);
}

/// A query for one row is answered with the object that stands first among the rows,
/// or null where there is no row or no result.
pub proof fn law_row_queries_are_answered_with_the_first_row(result: ResultView)
    ensures
        result.rows.len() > 0 ==> answered(Answer::FirstRow, Ok(Some(result))) == Ok::<
            JsonView,
            FailureView,
        >(
            JsonView::Object(
                seq![("value"@, JsonView::Object(row_members(result.names, result.rows[0])))],
            ),
        ),
        result.rows.len() == 0 ==> answered(Answer::FirstRow, Ok(Some(result))) == Ok::<
            JsonView,
            FailureView,
        >(JsonView::Object(seq![("value"@, JsonView::Null)])),
        answered(Answer::FirstRow, Ok(None)) == Ok::<JsonView, FailureView>(
            JsonView::Object(seq![("value"@, JsonView::Null)]),
        ),
{
    law_rows_come_back_in_order(result);
}

/// A query for one value is answered with the value that stands first in the first row,
/// or null where there is none.
pub proof fn law_value_queries_are_answered_with_the_first_value(result: ResultView)
    ensures
        result.rows.len() > 0 && result.rows[0].len() > 0 ==> answered(
            Answer::FirstValue,
            Ok(Some(result)),
        ) == Ok::<JsonView, FailureView>(
            JsonView::Object(seq![("value"@, cell_json(result.rows[0][0]))]),
        ),
        result.rows.len() == 0 || result.rows[0].len() == 0 ==> answered(
            Answer::FirstValue,
            Ok(Some(result)),
        ) == Ok::<JsonView, FailureView>(JsonView::Object(seq![("value"@, JsonView::Null)])),
        answered(Answer::FirstValue, Ok(None)) == Ok::<JsonView, FailureView>(
            JsonView::Object(seq![("value"@, JsonView::Null)]),
        ),
{
}

/// The server's version and a table's count are the first row's columns of those names,
/// whatever value stands there.
pub proof fn law_versions_and_counts_are_read_by_name(result: ResultView, j: int)
    requires
        result.rows.len() > 0,
        0 <= j < result.rows[0].len(),
        forall|k: int|
            j < k < result.rows[0].len() ==> #[trigger] column_name(result.names, k) != column_name(
                result.names,
                j,
            ),
    ensures
        column_name(result.names, j) == "release_version"@ ==> answered(
            Answer::ServerVersion,
            Ok(Some(result)),
        ) == Ok::<JsonView, FailureView>(
            JsonView::Object(seq![("value"@, cell_json(result.rows[0][j]))]),
        ),
        column_name(result.names, j) == "c"@ ==> answered(Answer::Count, Ok(Some(result))) == Ok::<
            JsonView,
            FailureView,
        >(JsonView::Object(seq![("value"@, cell_json(result.rows[0][j]))])),
{
    law_rows_come_back_in_order(result);
    law_row_is_keyed_by_column_name(result.names, result.rows[0], j);
}

/// Without a row, or without the column, the version is null and the count is zero.
pub proof fn law_absent_versions_and_counts(result: ResultView)
    requires
        result.rows.len() > 0 ==> forall|k: int|
            0 <= k < result.rows[0].len() ==> #[trigger] column_name(result.names, k)
                != "release_version"@ && column_name(result.names, k) != "c"@,
    ensures
        answered(Answer::ServerVersion, Ok(Some(result))) == Ok::<JsonView, FailureView>(
            JsonView::Object(seq![("value"@, JsonView::Null)]),
        ),
        answered(Answer::ServerVersion, Ok(None)) == Ok::<JsonView, FailureView>(
            JsonView::Object(seq![("value"@, JsonView::Null)]),
        ),
        answered(Answer::Count, Ok(Some(result))) == Ok::<JsonView, FailureView>(
            JsonView::Object(seq![("value"@, JsonView::Number(NumberView::Int(0)))]),
        ),
        answered(Answer::Count, Ok(None)) == Ok::<JsonView, FailureView>(
            JsonView::Object(seq![("value"@, JsonView::Number(NumberView::Int(0)))]),
        ),
{
    law_rows_come_back_in_order(result);
    if result.rows.len() > 0 {
        lemma_no_such_column(result.names, result.rows[0], "release_version"@);
        lemma_no_such_column(result.names, result.rows[0], "c"@);
    }
}

/// A row object does not answer a name that no column has.
proof fn lemma_no_such_column(names: Seq<Seq<char>>, cells: Seq<Option<CqlView>>, name: Seq<char>)
    requires
        forall|k: int| 0 <= k < cells.len() ==> #[trigger] column_name(names, k) != name,
    ensures
        !has_key(row_members(names, cells), name),
{
    let members = row_members(names, cells);
    if has_key(members, name) {
        let k = key_index(members, name);
        assert(members[k].0 == name);
        law_row_has_only_its_columns(names, cells, k);
    }
}

/// Keyspaces and tables are answered with the column of that name, one value for each
/// row, in the order of the rows.
pub proof fn law_names_are_answered_row_by_row(result: ResultView, column: int, i: int)
    requires
        0 <= column,
        forall|i: int| 0 <= i < result.rows.len() ==> column < (#[trigger] result.rows[i]).len(),
        forall|i: int, k: int|
            0 <= i < result.rows.len() && column < k < (#[trigger] result.rows[i]).len()
                ==> #[trigger] column_name(result.names, k) != column_name(result.names, column),
    ensures
        column_name(result.names, column) == "keyspace_name"@ ==> (answered(
            Answer::KeyspaceNames,
            Ok(Some(result)),
        ) matches Ok(JsonView::Object(reply)) && reply.len() == 1 && reply[0].0 == "value"@ && (
        reply[0].1 matches JsonView::Array(names) && names.len() == result.rows.len() && (0 <= i
            < result.rows.len() ==> names[i] == cell_json(result.rows[i][column])))),
        column_name(result.names, column) == "table_name"@ ==> (answered(
            Answer::TableNames,
            Ok(Some(result)),
        ) matches Ok(JsonView::Object(reply)) && reply.len() == 1 && reply[0].0 == "value"@ && (
        reply[0].1 matches JsonView::Array(names) && names.len() == result.rows.len() && (0 <= i
            < result.rows.len() ==> names[i] == cell_json(result.rows[i][column])))),
{
    law_a_column_is_listed_row_by_row(result, column);
}

/// What is listed of the rows is what each of them has under the name, and rows that do
/// not have it are passed over.
pub proof fn law_rows_without_the_column_are_passed_over(
    a: Seq<JsonView>,
    b: Seq<JsonView>,
    row: JsonView,
    column: Seq<char>,
)
    ensures
        column_of_each(seq![], column) == Seq::<JsonView>::empty(),
        forall|v: JsonView|
            json_get(row, column) == Some(v) ==> #[trigger] column_of_each(seq![row], column)
                == seq![v],
        json_get(row, column) is None ==> column_of_each(seq![row], column) == Seq::<
            JsonView,
        >::empty(),
        column_of_each(a + b, column) == column_of_each(a, column) + column_of_each(b, column),
        answered(Answer::KeyspaceNames, Ok(None)) == Ok::<JsonView, FailureView>(
            JsonView::Object(seq![("value"@, JsonView::Array(seq![]))]),
        ),
        answered(Answer::TableNames, Ok(None)) == Ok::<JsonView, FailureView>(
            JsonView::Object(seq![("value"@, JsonView::Array(seq![]))]),
        ),
    decreases b.len(),
{
    reveal_with_fuel(column_of_each, 2);
    law_rows_come_back_in_order(ResultView { names: seq![], rows: seq![] });
    assert(column_of_each(seq![], "keyspace_name"@) =~= Seq::<JsonView>::empty());
    assert(column_of_each(seq![], "table_name"@) =~= Seq::<JsonView>::empty());
    assert(seq![row].drop_last() =~= Seq::<JsonView>::empty());
    assert(seq![row].last() == row);
    if let Some(v) = json_get(row, column) {
        assert(column_of_each(seq![row], column) =~= seq![v]);
    }
    if b.len() == 0 {
        assert(a + b =~= a);
        assert(column_of_each(a + b, column) =~= column_of_each(a, column) + column_of_each(
            b,
            column,
        ));
    } else {
        assert((a + b).drop_last() =~= a + b.drop_last());
        assert((a + b).last() == b.last());
        law_rows_without_the_column_are_passed_over(a, b.drop_last(), row, column);
        assert(column_of_each(a + b, column) =~= column_of_each(a, column) + column_of_each(
            b,
            column,
        ));
    }
}

/// A statement that was carried out is told to be, whatever it returned. A cluster that
/// answered is alive, whatever it answered; one that failed to is not, for whatever
/// reason. Every other command fails where its statement failed, for the same reason.
pub proof fn law_outcomes_are_told(
    result: Option<ResultView>,
    failure: FailureView,
    answer: Answer,
    set: Option<ResultSet>,
    e: Failure,
)
    ensures
        answered(Answer::Done, Ok(result)) == Ok::<JsonView, FailureView>(
            JsonView::Object(seq![("ok"@, JsonView::Bool(true))]),
        ),
        answered(Answer::Alive, Ok(result)) == Ok::<JsonView, FailureView>(
            JsonView::Object(seq![("value"@, JsonView::Bool(true))]),
        ),
        answered(Answer::Alive, Err(failure)) == Ok::<JsonView, FailureView>(
            JsonView::Object(seq![("value"@, JsonView::Bool(false))]),
        ),
        !(answer is Alive) ==> answered(answer, Err(failure)) == Err::<JsonView, FailureView>(
            failure,
        ),
        result_view(Ok(set)) == Ok::<Option<ResultView>, FailureView>(optional_result(set)),
        result_view(Err(e)) == Err::<Option<ResultView>, FailureView>(e@),
{
}

/// The rows of an outcome are what stands under `rows`, or an empty array.
pub proof fn law_rows_are_found_under_their_key(result: JsonView, rows: JsonView)
    ensures
        json_get(result, "rows"@) == Some(rows) ==> rows_json(result) == rows,
        json_get(result, "rows"@) is None ==> rows_json(result) == JsonView::Array(seq![]),
{
}

}
