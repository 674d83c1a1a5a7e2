//! CQL text: quoting, identifiers and literals.
//!
//! CQL delimits a string literal with single quotes and a case-sensitive
//! identifier with double quotes. Inside, the delimiter is written twice.
use crate::json::codec::encoded;
use crate::json::{
    json_views, lemma_array_view, number_view_text, Json, JsonView, NumberView,
};
use crate::text::{
    integer_text, join, join_text, law_integer_numerals_read_back, numeral_value,
};
use vstd::prelude::*;
use vstd::string::*;

verus! {

// ── quoting ─────────────────────────────────────────────────────────────────

/// The text with each `quote` written twice.
pub open spec fn doubled(s: Seq<char>, quote: char) -> Seq<char>
    decreases s.len(),
{
    if s.len() == 0 {
        seq![]
    } else if s.last() == quote {
        doubled(s.drop_last(), quote).push(quote).push(quote)
    } else {
        doubled(s.drop_last(), quote).push(s.last())
    }
}

/// The text between two `quote`s, with each `quote` inside written twice.
pub open spec fn quoted(s: Seq<char>, quote: char) -> Seq<char> {
    seq![quote] + doubled(s, quote) + seq![quote]
}

/// Appends the text with each `quote` written twice.
fn push_doubled(out: &mut String, s: &str, quote: char)
    ensures
        final(out)@ == old(out)@ + doubled(s@, quote),
{
    let ghost start = out@;
    proof {
        assert(s@.take(0) =~= Seq::<char>::empty());
        assert(out@ =~= start + doubled(s@.take(0), quote));
    }
    for c in it: s.chars()
        invariant
            it.seq() == s@,
            out@ == start + doubled(s@.take(it.index() as int), quote),
    {
        let ghost k = it.index() as int;
        let ghost before = out@;
        if c == quote {
            out.push(c);
        }
        out.push(c);
        proof {
            assert(s@.take(k + 1).drop_last() =~= s@.take(k));
            assert(s@.take(k + 1).last() == c);
            assert(out@ =~= start + doubled(s@.take(k + 1), quote));
        }
    }
    proof {
        assert(s@.take(s@.len() as int) =~= s@);
    }
}

/// The text between two `quote`s, with each `quote` inside written twice.
fn quote_with(s: &str, quote: char) -> (text: String)
    ensures
        text@ == quoted(s@, quote),
{
    let mut text: String = String::new();
    text.push(quote);
    push_doubled(&mut text, s, quote);
    text.push(quote);
    proof {
        assert(text@ =~= quoted(s@, quote));
    }
    text
}

/// Escapes a string for a single-quoted CQL literal: `'` becomes `''`.
pub fn escape_string(s: &str) -> (text: String)
    ensures
        text@ == doubled(s@, '\''),
{
    let mut text: String = String::new();
    push_doubled(&mut text, s, '\'');
    proof {
        assert(text@ =~= doubled(s@, '\''));
    }
    text
}

/// Double-quotes a CQL identifier (`"` becomes `""`), forcing case sensitivity.
pub fn quote_identifier(s: &str) -> (text: String)
    ensures
        text@ == quoted(s@, '"'),
{
    quote_with(s, '"')
}

/// Wraps a string as a single-quoted CQL literal, escaping embedded quotes.
pub fn quote_literal(s: &str) -> (text: String)
    ensures
        text@ == quoted(s@, '\''),
{
    quote_with(s, '\'')
}

// ── identifiers ─────────────────────────────────────────────────────────────

/// An ASCII letter.
pub open spec fn is_letter(c: char) -> bool {
    'a' <= c <= 'z' || 'A' <= c <= 'Z'
}

/// An ASCII letter, an ASCII digit or an underscore.
pub open spec fn is_word_char(c: char) -> bool {
    is_letter(c) || '0' <= c <= '9' || c == '_'
}

/// The pattern `[A-Za-z][A-Za-z0-9_]*`.
pub open spec fn identifier_shape(s: Seq<char>) -> bool {
    &&& s.len() > 0
    &&& is_letter(s[0])
    &&& forall|i: int| 0 <= i < s.len() ==> is_word_char(#[trigger] s[i])
}

/// Whether the text is safe as an unquoted CQL identifier: it matches
/// `[A-Za-z][A-Za-z0-9_]*`.
pub fn valid_identifier(s: &str) -> (valid: bool)
    ensures
        valid == identifier_shape(s@),
{
    let mut first: bool = true;
    let mut valid: bool = true;
    for c in it: s.chars()
        invariant
            it.seq() == s@,
            first == (it.index() == 0),
            valid == ((it.index() > 0 ==> is_letter(s@[0])) && forall|i: int|
                0 <= i < it.index() ==> is_word_char(#[trigger] s@[i])),
    {
        proof {
            assert(c == s@[it.index() as int]);
        }
        let letter: bool = ('a' <= c && c <= 'z') || ('A' <= c && c <= 'Z');
        if first {
            valid = letter;
            first = false;
        } else {
            valid = valid && (letter || ('0' <= c && c <= '9') || c == '_');
        }
    }
    valid && !first
}

// ── literals ────────────────────────────────────────────────────────────────

/// The CQL literal of a document: a quoted string, a number as it is, `true` or
/// `false`, `NULL`, a list in brackets; an object is the quoted string of its
/// compact JSON text.
pub open spec fn literal_text(v: JsonView) -> Seq<char>
    decreases v,
{
    match v {
        JsonView::Null => "NULL"@,
        JsonView::Bool(b) => if b {
            "true"@
        } else {
            "false"@
        },
        JsonView::Number(n) => number_view_text(n),
        JsonView::String(s) => quoted(s, '\''),
        JsonView::Array(items) => "["@ + literals_text(items) + "]"@,
        JsonView::Object(_) => quoted(encoded(v), '\''),
    }
}

/// The literals of the documents, with commas between them.
pub open spec fn literals_text(items: Seq<JsonView>) -> Seq<char>
    decreases items,
{
    if items.len() == 0 {
        seq![]
    } else if items.len() == 1 {
        literal_text(items[0])
    } else {
        literals_text(items.drop_last()) + ", "@ + literal_text(items.last())
    }
}

/// The list of an `IN` restriction. The empty list is `(NULL)`, which matches
/// nothing.
pub open spec fn in_list_text(items: Seq<JsonView>) -> Seq<char> {
    if items.len() == 0 {
        "(NULL)"@
    } else {
        "("@ + literals_text(items) + ")"@
    }
}

/// Joining the literals of the documents puts commas between them.
proof fn lemma_joined_literals(items: Seq<JsonView>, texts: Seq<Seq<char>>)
    requires
        texts.len() == items.len(),
        forall|k: int| 0 <= k < items.len() ==> #[trigger] texts[k] == literal_text(items[k]),
    ensures
        join_text(texts, ", "@) == literals_text(items),
    decreases items.len(),
{
    if items.len() > 1 {
        lemma_joined_literals(items.drop_last(), texts.drop_last());
    }
}

/// Formats the documents as CQL literals, with commas between them.
fn format_literals(values: &[Json]) -> (text: String)
    ensures
        text@ == literals_text(json_views(values@)),
    decreases values@,
{
    let mut literals: Vec<String> = Vec::new();
    let mut i: usize = 0;
    while i < values.len()
        invariant
            0 <= i <= values@.len(),
            literals@.len() == i,
            forall|k: int|
                0 <= k < i ==> (#[trigger] literals@[k])@ == literal_text(values@[k]@),
        decreases values@.len() - i,
    {
        literals.push(format_value(&values[i]));
        i += 1;
    }
    proof {
        lemma_joined_literals(json_views(values@), literals@.map_values(|p: String| p@));
    }
    join(&literals, ", ")
}

/// Formats a document as a CQL literal: string, number, boolean, null or list.
pub fn format_value(v: &Json) -> (text: String)
    ensures
        text@ == literal_text(v@),
    decreases v,
{
    match v {
        Json::Null => "NULL".to_owned(),
        Json::Bool(b) => if *b {
            "true".to_owned()
        } else {
            "false".to_owned()
        },
        Json::Number(n) => n.text(),
        Json::String(s) => quote_literal(s.as_str()),
        Json::Array(items) => {
            proof {
                lemma_array_view(*items);
                assert(decreases_to!(v => v->Array_0));
                assert(decreases_to!(v->Array_0 => v->Array_0@));
            }
            let mut text: String = "[".to_owned();
            text.append(format_literals(items.as_slice()).as_str());
            text.append("]");
            text
        },
        Json::Object(_) => quote_literal(v.display().as_str()),
    }
}

/// Renders values into the list of an `IN` restriction. No value gives `(NULL)`,
/// which matches nothing.
pub fn format_in_list(values: &[Json]) -> (text: String)
    ensures
        text@ == in_list_text(json_views(values@)),
{
    if values.len() == 0 {
        return "(NULL)".to_owned();
    }
    let mut text: String = "(".to_owned();
    text.append(format_literals(values).as_str());
    text.append(")");
    text
}

// ── how CQL reads what was quoted ───────────────────────────────────────────

/// How CQL reads a quoted text from inside it, at the position `at`: two quotes
/// stand for one, a single quote ends the text. Gives the characters read and
/// the position behind the closing quote; `None` where the text is never closed.
pub open spec fn read_quoted(text: Seq<char>, at: int, quote: char) -> Option<(Seq<char>, int)>
    decreases text.len() - at,
{
    if at < 0 || at >= text.len() {
        None
    } else if text[at] != quote {
        match read_quoted(text, at + 1, quote) {
            Some((rest, end)) => Some((seq![text[at]] + rest, end)),
            None => None,
        }
    } else if at + 1 < text.len() && text[at + 1] == quote {
        match read_quoted(text, at + 2, quote) {
            Some((rest, end)) => Some((seq![quote] + rest, end)),
            None => None,
        }
    } else {
        Some((seq![], at + 1))
    }
}

/// Doubling the quotes of a text starts with what becomes of its first character.
proof fn lemma_doubled_front(s: Seq<char>, quote: char)
    requires
        s.len() > 0,
    ensures
        doubled(s, quote) == (if s[0] == quote {
            seq![quote, quote]
        } else {
            seq![s[0]]
        }) + doubled(s.drop_first(), quote),
    decreases s.len(),
{
    if s.len() == 1 {
        assert(s.drop_last() =~= Seq::<char>::empty());
        assert(s.drop_first() =~= Seq::<char>::empty());
        assert(doubled(s.drop_last(), quote) =~= Seq::<char>::empty());
    } else {
        lemma_doubled_front(s.drop_last(), quote);
        assert(s.drop_last().drop_first() =~= s.drop_first().drop_last());
        assert(s.drop_first().last() == s.last());
    }
    assert(doubled(s, quote) =~= (if s[0] == quote {
        seq![quote, quote]
    } else {
        seq![s[0]]
    }) + doubled(s.drop_first(), quote));
}

/// Whatever stands around it, an escaped text between quotes is read back as the
/// text that was escaped, and the reading ends right behind the closing quote.
/// So no character of the text is taken for CQL. (What follows the closing quote
/// may not itself begin with a quote.)
pub proof fn law_escaped_text_reads_back(
    before: Seq<char>,
    s: Seq<char>,
    after: Seq<char>,
    quote: char,
)
    requires
        after.len() == 0 || after[0] != quote,
    ensures
        read_quoted(before + quoted(s, quote) + after, before.len() as int + 1, quote) == Some(
            (s, (before.len() + quoted(s, quote).len()) as int),
        ),
{
    let text = before + quoted(s, quote) + after;
    assert(text =~= (before + seq![quote]) + doubled(s, quote) + seq![quote] + after);
    lemma_reads_back(before + seq![quote], s, after, quote);
}

/// The escaped text is read back from its first character.
proof fn lemma_reads_back(before: Seq<char>, s: Seq<char>, after: Seq<char>, quote: char)
    requires
        after.len() == 0 || after[0] != quote,
    ensures
        read_quoted(
            before + doubled(s, quote) + seq![quote] + after,
            before.len() as int,
            quote,
        ) == Some((s, (before.len() + doubled(s, quote).len() + 1) as int)),
    decreases s.len(),
{
    let text = before + doubled(s, quote) + seq![quote] + after;
    let at = before.len() as int;
    if s.len() == 0 {
        assert(text[at] == quote);
        if at + 1 < text.len() {
            assert(text[at + 1] == after[0]);
        }
        assert(s =~= Seq::<char>::empty());
    } else {
        lemma_doubled_front(s, quote);
        let unit = if s[0] == quote {
            seq![quote, quote]
        } else {
            seq![s[0]]
        };
        let rest = s.drop_first();
        assert(text =~= (before + unit) + doubled(rest, quote) + seq![quote] + after);
        lemma_reads_back(before + unit, rest, after, quote);
        assert(text[at] == unit[0]);
        if s[0] == quote {
            assert(text[at + 1] == unit[1]);
        }
        assert(seq![s[0]] + rest =~= s);
    }
}

/// Different texts stay different when they are escaped.
pub proof fn law_escaping_keeps_texts_apart(a: Seq<char>, b: Seq<char>, quote: char)
    requires
        doubled(a, quote) == doubled(b, quote),
    ensures
        a == b,
{
    law_escaped_text_reads_back(seq![], a, seq![], quote);
    law_escaped_text_reads_back(seq![], b, seq![], quote);
}

/// A text may be escaped piece by piece.
pub proof fn law_escaping_goes_piece_by_piece(a: Seq<char>, b: Seq<char>, quote: char)
    ensures
        doubled(a + b, quote) == doubled(a, quote) + doubled(b, quote),
    decreases b.len(),
{
    if b.len() == 0 {
        assert(a + b =~= a);
        assert(doubled(a + b, quote) =~= doubled(a, quote) + doubled(b, quote));
    } else {
        assert((a + b).drop_last() =~= a + b.drop_last());
        law_escaping_goes_piece_by_piece(a, b.drop_last(), quote);
        assert(doubled(a + b, quote) =~= doubled(a, quote) + doubled(b, quote));
    }
}

/// Whether only quotes stand from `start` to `end`, and no quote right before or
/// right behind them.
pub open spec fn quote_run(text: Seq<char>, start: int, end: int, quote: char) -> bool {
    &&& 0 <= start <= end <= text.len()
    &&& forall|i: int| start <= i < end ==> #[trigger] text[i] == quote
    &&& start > 0 ==> text[start - 1] != quote
    &&& end < text.len() ==> text[end] != quote
}

/// Quotes stand in pairs in an escaped text: each run of them has even length.
pub proof fn law_quotes_stand_in_pairs(s: Seq<char>, start: int, end: int, quote: char)
    requires
        quote_run(doubled(s, quote), start, end, quote),
    ensures
        (end - start) % 2 == 0,
    decreases s.len(),
{
    if s.len() > 0 {
        let text = doubled(s, quote);
        let shorter = doubled(s.drop_last(), quote);
        assert forall|i: int| 0 <= i < shorter.len() implies #[trigger] text[i] == shorter[i] by {}
        if s.last() == quote {
            assert(text[shorter.len() as int] == quote && text[shorter.len() as int + 1] == quote);
        } else {
            assert(text[shorter.len() as int] != quote);
        }
        if start < end || end <= shorter.len() {
            let before = if end <= shorter.len() {
                end
            } else {
                shorter.len() as int
            };
            assert(start <= before);
            assert forall|i: int| start <= i < before implies #[trigger] shorter[i] == quote by {
                assert(text[i] == shorter[i]);
            }
            law_quotes_stand_in_pairs(s.drop_last(), start, before, quote);
        }
    }
}

/// Escaping adds one character for each quote of the text. A text without a quote
/// stays as it is.
pub proof fn law_escaping_adds_one_per_quote(s: Seq<char>, quote: char)
    ensures
        doubled(s, quote).len() == s.len() + s.filter(|c: char| c == quote).len(),
        !s.contains(quote) ==> doubled(s, quote) == s,
    decreases s.len(),
{
    reveal(Seq::filter);
    if s.len() > 0 {
        let shorter = s.drop_last();
        law_escaping_adds_one_per_quote(shorter, quote);
        if !s.contains(quote) {
            assert(s.last() != quote) by {
                assert(s[s.len() - 1] == s.last());
            }
            assert(!shorter.contains(quote)) by {
                if shorter.contains(quote) {
                    let i = choose|i: int| 0 <= i < shorter.len() && shorter[i] == quote;
                    assert(s[i] == quote);
                }
            }
            assert(shorter.push(s.last()) =~= s);
        }
    } else {
        assert(doubled(s, quote) =~= s);
    }
}

/// A valid identifier holds no quote of either kind: escaping leaves it as it is.
pub proof fn law_valid_identifier_needs_no_escape(s: Seq<char>)
    requires
        identifier_shape(s),
    ensures
        doubled(s, '\'') == s,
        doubled(s, '"') == s,
{
    assert(!s.contains('\'') && !s.contains('"')) by {
        assert forall|i: int| 0 <= i < s.len() implies s[i] != '\'' && s[i] != '"' by {
            assert(is_word_char(s[i]));
        }
    }
    law_escaping_adds_one_per_quote(s, '\'');
    law_escaping_adds_one_per_quote(s, '"');
}

/// A list literal and the list of an `IN` restriction hold the same literals: one
/// between brackets, the other between parentheses.
pub proof fn law_lists_hold_the_same_literals(items: Seq<JsonView>)
    requires
        items.len() > 0,
    ensures
        literal_text(JsonView::Array(items)) == "["@ + literals_text(items) + "]"@,
        in_list_text(items) == "("@ + literals_text(items) + ")"@,
{
}

/// A quoted text begins and ends with its quote, and the escaped text stands between:
/// from right behind the first quote CQL reads the text that was quoted, up to the
/// end.
pub proof fn law_quoted_text_is_delimited(s: Seq<char>, quote: char)
    ensures
        quoted(s, quote).len() >= 2,
        quoted(s, quote)[0] == quote,
        quoted(s, quote).last() == quote,
        quoted(s, quote) == seq![quote] + doubled(s, quote) + seq![quote],
        read_quoted(quoted(s, quote), 1, quote) == Some((s, quoted(s, quote).len() as int)),
{
    law_escaped_text_reads_back(seq![], s, seq![], quote);
    assert(Seq::<char>::empty() + quoted(s, quote) + Seq::<char>::empty() =~= quoted(s, quote));
}

/// Escaped text that is put between quotes by hand, in the midst of a statement, is
/// read back as the text that was escaped, and what follows the closing quote is left.
pub proof fn law_escaped_text_can_be_interpolated(
    before: Seq<char>,
    s: Seq<char>,
    after: Seq<char>,
    quote: char,
)
    requires
        after.len() == 0 || after[0] != quote,
    ensures
        read_quoted(
            before + seq![quote] + doubled(s, quote) + seq![quote] + after,
            before.len() as int + 1,
            quote,
        ) == Some((s, (before.len() + doubled(s, quote).len() + 2) as int)),
{
    lemma_reads_back(before + seq![quote], s, after, quote);
}

/// Escaping changes a quote into two and leaves any other character.
pub proof fn law_escaping_single_characters(c: char, quote: char)
    ensures
        doubled(seq![], quote) == Seq::<char>::empty(),
        doubled(seq![c], quote) == (if c == quote {
            seq![quote, quote]
        } else {
            seq![c]
        }),
{
    assert(seq![c].drop_last() =~= Seq::<char>::empty());
    assert(doubled(seq![c].drop_last(), quote) =~= Seq::<char>::empty());
    assert(doubled(seq![c], quote) =~= (if c == quote {
        seq![quote, quote]
    } else {
        seq![c]
    }));
}

/// One character is an identifier where it is one of the 52 letters. A longer text is
/// one where it goes on with a letter, a digit or an underscore. No text is none.
pub proof fn law_identifiers_grow_by_word_characters(s: Seq<char>, c: char)
    ensures
        !identifier_shape(seq![]),
        identifier_shape(seq![c]) <==> (65 <= c as int <= 90 || 97 <= c as int <= 122),
        s.len() > 0 ==> (identifier_shape(s.push(c)) <==> identifier_shape(s) && (65 <= c as int
            <= 90 || 97 <= c as int <= 122 || 48 <= c as int <= 57 || c as int == 95)),
{
    assert(seq![c][0] == c);
    if s.len() > 0 {
        let longer = s.push(c);
        assert(longer[s.len() as int] == c);
        assert(longer[0] == s[0]);
        if identifier_shape(longer) {
            assert forall|i: int| 0 <= i < s.len() implies is_word_char(#[trigger] s[i]) by {
                assert(longer[i] == s[i]);
            }
        }
        if identifier_shape(s) && is_word_char(c) {
            assert forall|i: int| 0 <= i < longer.len() implies is_word_char(
                #[trigger] longer[i],
            ) by {
                if i < s.len() {
                    assert(longer[i] == s[i]);
                }
            }
        }
    }
}

/// The literal of any string is a quoted text that CQL reads back as that string, up
/// to the literal's end, also inside a statement.
pub proof fn law_string_literals_read_back(before: Seq<char>, s: Seq<char>, after: Seq<char>)
    requires
        after.len() == 0 || after[0] != '\'',
    ensures
        literal_text(JsonView::String(s)).len() >= 2,
        literal_text(JsonView::String(s))[0] == '\'',
        literal_text(JsonView::String(s)).last() == '\'',
        read_quoted(literal_text(JsonView::String(s)), 1, '\'') == Some(
            (s, literal_text(JsonView::String(s)).len() as int),
        ),
        read_quoted(
            before + literal_text(JsonView::String(s)) + after,
            before.len() as int + 1,
            '\'',
        ) == Some((s, (before.len() + literal_text(JsonView::String(s)).len()) as int)),
{
    law_quoted_text_is_delimited(s, '\'');
    law_escaped_text_reads_back(before, s, after, '\'');
}

/// The literal of an object is a quoted text that CQL reads back as the object's JSON
/// text.
pub proof fn law_object_literals_read_back(members: Seq<(Seq<char>, JsonView)>)
    ensures
        ({
            let v = JsonView::Object(members);
            &&& literal_text(v)[0] == '\''
            &&& read_quoted(literal_text(v), 1, '\'') == Some(
                (encoded(v), literal_text(v).len() as int),
            )
        }),
{
    law_quoted_text_is_delimited(encoded(JsonView::Object(members)), '\'');
}

/// Null, truth values and numbers are written as CQL writes them: `NULL`, `true` or
/// `false`, an integer's numeral, a floating point number's text.
pub proof fn law_scalar_literals(i: int, text: Seq<char>)
    ensures
        literal_text(JsonView::Null) == seq!['N', 'U', 'L', 'L'],
        literal_text(JsonView::Bool(true)) == seq!['t', 'r', 'u', 'e'],
        literal_text(JsonView::Bool(false)) == seq!['f', 'a', 'l', 's', 'e'],
        i >= 0 ==> numeral_value(literal_text(JsonView::Number(NumberView::Int(i)))) == i
            && literal_text(JsonView::Number(NumberView::Int(i))).len() > 0
            && literal_text(JsonView::Number(NumberView::Int(i)))[0] != '-',
        i < 0 ==> literal_text(JsonView::Number(NumberView::Int(i)))[0] == '-' && numeral_value(
            literal_text(JsonView::Number(NumberView::Int(i))).drop_first(),
        ) == -i,
        literal_text(JsonView::Number(NumberView::Int(i))) == integer_text(i),
        literal_text(JsonView::Number(NumberView::Float(text))) == text,
{
    reveal_strlit("NULL");
    reveal_strlit("true");
    reveal_strlit("false");
    law_integer_numerals_read_back(i);
    assert(literal_text(JsonView::Null) =~= seq!['N', 'U', 'L', 'L']);
    assert(literal_text(JsonView::Bool(true)) =~= seq!['t', 'r', 'u', 'e']);
    assert(literal_text(JsonView::Bool(false)) =~= seq!['f', 'a', 'l', 's', 'e']);
}

/// A list literal stands in brackets and an `IN` list in parentheses. Between them
/// stands nothing for no item, an item's literal for one item, and for two lists one
/// behind the other what stands for each, with a comma and a blank between. So every
/// item is there, as its own literal, in its place.
pub proof fn law_list_literals_are_made_of_their_items(
    a: Seq<JsonView>,
    b: Seq<JsonView>,
    item: JsonView,
)
    ensures
        literal_text(JsonView::Array(seq![])) == seq!['[', ']'],
        literal_text(JsonView::Array(seq![item])) == seq!['['] + literal_text(item) + seq![']'],
        in_list_text(seq![]) == seq!['(', 'N', 'U', 'L', 'L', ')'],
        in_list_text(seq![item]) == seq!['('] + literal_text(item) + seq![')'],
        literal_text(JsonView::Array(a)) == seq!['['] + literals_text(a) + seq![']'],
        a.len() > 0 ==> in_list_text(a) == seq!['('] + literals_text(a) + seq![')'],
        a.len() > 0 && b.len() > 0 ==> literals_text(a + b) == literals_text(a) + seq![',', ' ']
            + literals_text(b),
        literals_text(seq![item]) == literal_text(item),
{
    reveal_strlit("[");
    reveal_strlit("]");
    reveal_strlit("(");
    reveal_strlit(")");
    reveal_strlit(", ");
    reveal_strlit("(NULL)");
    assert("["@ =~= seq!['[']);
    assert("]"@ =~= seq![']']);
    assert("("@ =~= seq!['(']);
    assert(")"@ =~= seq![')']);
    assert(", "@ =~= seq![',', ' ']);
    assert(literals_text(seq![]) =~= Seq::<char>::empty());
    assert(literals_text(seq![item]) == literal_text(item));
    assert(literal_text(JsonView::Array(seq![])) =~= seq!['[', ']']);
    assert(in_list_text(seq![]) =~= seq!['(', 'N', 'U', 'L', 'L', ')']);
    if a.len() > 0 && b.len() > 0 {
        lemma_literals_concatenate(a, b);
    }
}

/// The literals of two lists one behind the other.
proof fn lemma_literals_concatenate(a: Seq<JsonView>, b: Seq<JsonView>)
    requires
        a.len() > 0,
        b.len() > 0,
    ensures
        literals_text(a + b) == literals_text(a) + ", "@ + literals_text(b),
    decreases b.len(),
{
    assert((a + b).last() == b.last());
    if b.len() == 1 {
        assert((a + b).drop_last() =~= a);
    } else {
        lemma_literals_concatenate(a, b.drop_last());
        assert((a + b).drop_last() =~= a + b.drop_last());
        assert(literals_text(a + b) =~= literals_text(a) + ", "@ + literals_text(b));
    }
}

}
