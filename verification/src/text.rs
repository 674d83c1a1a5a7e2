//! Characters and strings: decimal numerals, joining and splitting.
//!
//! Texts are modelled as sequences of characters, the view that `String` and
//! `str` have.
use vstd::prelude::*;
use vstd::string::*;

verus! {

/// `std::string::String::push` appends the character to the end of the string.
pub assume_specification[ std::string::String::push ](s: &mut std::string::String, c: char)
    ensures
        final(s)@ == old(s)@.push(c),
;

// ── decimal numerals ────────────────────────────────────────────────────────

/// The character of a decimal digit.
pub open spec fn digit_char(d: int) -> char {
    (48 + d) as char
}

/// The decimal numeral of a natural number, without leading zeros.
pub open spec fn natural_text(n: nat) -> Seq<char>
    decreases n,
{
    if n < 10 {
        seq![digit_char(n as int)]
    } else {
        natural_text(n / 10).push(digit_char((n % 10) as int))
    }
}

/// The decimal numeral of an integer: a minus sign before a negative one.
pub open spec fn integer_text(i: int) -> Seq<char> {
    if i < 0 {
        seq!['-'] + natural_text((-i) as nat)
    } else {
        natural_text(i as nat)
    }
}

/// Appends the decimal numeral of `n`.
fn push_natural(out: &mut String, n: u64)
    ensures
        final(out)@ == old(out)@ + natural_text(n as nat),
    decreases n,
{
    if n >= 10 {
        push_natural(out, n / 10);
    }
    let digit: u8 = 48 + (n % 10) as u8;
    out.push(digit as char);
    proof {
        assert(out@ =~= old(out)@ + natural_text(n as nat));
    }
}

/// Writes a natural number in decimal.
pub fn natural_to_string(n: u64) -> (text: String)
    ensures
        text@ == natural_text(n as nat),
{
    let mut text: String = String::new();
    push_natural(&mut text, n);
    text
}

/// Writes an integer in decimal.
pub fn integer_to_string(i: i64) -> (text: String)
    ensures
        text@ == integer_text(i as int),
{
    let mut text: String = String::new();
    if i < 0 {
        text.push('-');
        if i == i64::MIN {
            push_natural(&mut text, 9223372036854775808);
        } else {
            push_natural(&mut text, (-i) as u64);
        }
        proof {
            assert(text@ =~= seq!['-'] + natural_text((-i) as nat));
        }
    } else {
        push_natural(&mut text, i as u64);
    }
    text
}

// ── joining ─────────────────────────────────────────────────────────────────

/// The parts one after the other, with `separator` between neighbours.
pub open spec fn join_text(parts: Seq<Seq<char>>, separator: Seq<char>) -> Seq<char>
    decreases parts.len(),
{
    if parts.len() == 0 {
        seq![]
    } else if parts.len() == 1 {
        parts[0]
    } else {
        join_text(parts.drop_last(), separator) + separator + parts.last()
    }
}

/// Joins the parts with `separator` between neighbours.
pub fn join(parts: &Vec<String>, separator: &str) -> (text: String)
    ensures
        text@ == join_text(parts@.map_values(|p: String| p@), separator@),
{
    let ghost views = parts@.map_values(|p: String| p@);
    let mut text: String = String::new();
    let mut i: usize = 0;
    while i < parts.len()
        invariant
            0 <= i <= parts@.len(),
            views == parts@.map_values(|p: String| p@),
            text@ == join_text(views.take(i as int), separator@),
        decreases parts@.len() - i,
    {
        if i > 0 {
            text.append(separator);
        }
        text.append(parts[i].as_str());
        proof {
            assert(views.take(i + 1).drop_last() =~= views.take(i as int));
            assert(views.take(i + 1).last() == parts@[i as int]@);
            if i == 0 {
                assert(text@ =~= views[0]);
            }
        }
        i += 1;
    }
    proof {
        assert(views.take(parts@.len() as int) =~= views);
    }
    text
}

// ── searching and splitting ─────────────────────────────────────────────────

/// Whether the character occurs in the text.
pub fn contains_char(s: &str, wanted: char) -> (found: bool)
    ensures
        found == s@.contains(wanted),
{
    let mut found: bool = false;
    for c in it: s.chars()
        invariant
            it.seq() == s@,
            found == s@.take(it.index() as int).contains(wanted),
    {
        proof {
            let k = it.index() as int;
            assert(s@.take(k + 1) =~= s@.take(k).push(s@[k]));
            if s@.take(k).contains(wanted) {
                let j = choose|j: int| 0 <= j < k && s@.take(k)[j] == wanted;
                assert(s@.take(k + 1)[j] == wanted);
            }
            if s@[k] == wanted {
                assert(s@.take(k + 1)[k] == wanted);
            }
        }
        if c == wanted {
            found = true;
        }
    }
    proof {
        assert(s@.take(s@.len() as int) =~= s@);
    }
    found
}

/// The pieces of the text between the separators, empty ones among them.
pub open spec fn split_text(s: Seq<char>, separator: char) -> Seq<Seq<char>>
    decreases s.len(),
{
    if s.len() == 0 {
        seq![seq![]]
    } else {
        let before = split_text(s.drop_last(), separator);
        if s.last() == separator {
            before.push(seq![])
        } else {
            before.drop_last().push(before.last().push(s.last()))
        }
    }
}

/// Splits the text at each separator.
pub fn split(s: &str, separator: char) -> (pieces: Vec<String>)
    ensures
        pieces@.map_values(|p: String| p@) == split_text(s@, separator),
{
    let mut pieces: Vec<String> = Vec::new();
    let mut piece: String = String::new();
    proof {
        assert(s@.take(0) =~= Seq::<char>::empty());
        assert(pieces@.map_values(|p: String| p@).push(piece@) =~= split_text(s@.take(0), separator));
    }
    for c in it: s.chars()
        invariant
            it.seq() == s@,
            pieces@.map_values(|p: String| p@).push(piece@) == split_text(
                s@.take(it.index() as int),
                separator,
            ),
    {
        let ghost k = it.index() as int;
        let ghost before = pieces@.map_values(|p: String| p@);
        proof {
            assert(s@.take(k + 1).drop_last() =~= s@.take(k));
            assert(s@.take(k + 1).last() == c);
            assert(before.push(piece@).drop_last() =~= before);
        }
        if c == separator {
            let ghost done = piece@;
            pieces.push(piece);
            piece = String::new();
            proof {
                assert(pieces@.map_values(|p: String| p@) =~= before.push(done));
            }
        } else {
            piece.push(c);
        }
    }
    let ghost before = pieces@.map_values(|p: String| p@);
    let ghost last = piece@;
    pieces.push(piece);
    proof {
        assert(s@.take(s@.len() as int) =~= s@);
        assert(pieces@.map_values(|p: String| p@) =~= before.push(last));
    }
    pieces
}

// ── laws ────────────────────────────────────────────────────────────────────

/// The number that a text of decimal digits stands for.
pub open spec fn numeral_value(text: Seq<char>) -> int
    decreases text.len(),
{
    if text.len() == 0 {
        0
    } else {
        10 * numeral_value(text.drop_last()) + (text.last() as int - '0' as int)
    }
}

/// The numeral of a natural number is made of digits, has no leading zero and stands
/// for the number.
pub proof fn law_numerals_read_back(n: nat)
    ensures
        natural_text(n).len() > 0,
        forall|i: int| 0 <= i < natural_text(n).len() ==> '0' <= #[trigger] natural_text(n)[i] <= '9',
        numeral_value(natural_text(n)) == n,
        natural_text(n)[0] == '0' ==> n == 0,
        n == 0 ==> natural_text(n).len() == 1,
    decreases n,
{
    if n >= 10 {
        law_numerals_read_back(n / 10);
        let shorter = natural_text(n / 10);
        assert(natural_text(n).drop_last() =~= shorter);
        assert(natural_text(n)[0] == shorter[0]);
        assert forall|i: int| 0 <= i < natural_text(n).len() implies '0' <= #[trigger] natural_text(
            n,
        )[i] <= '9' by {
            if i < shorter.len() {
                assert(natural_text(n)[i] == shorter[i]);
            }
        }
    } else {
        assert(natural_text(n).drop_last() =~= Seq::<char>::empty());
        assert(numeral_value(Seq::<char>::empty()) == 0);
        assert(natural_text(n).last() as int == n + '0' as int);
    }
}

/// The numeral of an integer is that of its absolute value, behind a minus sign where
/// it is negative, and it stands for the integer.
pub proof fn law_integer_numerals_read_back(i: int)
    ensures
        i >= 0 ==> integer_text(i).len() > 0 && integer_text(i)[0] != '-' && numeral_value(
            integer_text(i),
        ) == i,
        i < 0 ==> integer_text(i).len() > 1 && integer_text(i)[0] == '-' && numeral_value(
            integer_text(i).drop_first(),
        ) == -i,
        i >= 0 ==> integer_text(i) == natural_text(i as nat),
        i < 0 ==> integer_text(i) == seq!['-'] + natural_text((-i) as nat),
{
    if i >= 0 {
        law_numerals_read_back(i as nat);
        assert('0' <= natural_text(i as nat)[0]);
    } else {
        law_numerals_read_back((-i) as nat);
        assert(integer_text(i).drop_first() =~= natural_text((-i) as nat));
    }
}

/// Nothing joins to nothing, one part to itself, and two lists of parts to what each
/// joins to, with one separator between.
pub proof fn law_joining(a: Seq<Seq<char>>, b: Seq<Seq<char>>, part: Seq<char>, separator: Seq<char>)
    ensures
        join_text(seq![], separator) == Seq::<char>::empty(),
        join_text(seq![part], separator) == part,
        a.len() > 0 && b.len() > 0 ==> join_text(a + b, separator) == join_text(a, separator)
            + separator + join_text(b, separator),
    decreases b.len(),
{
    if a.len() > 0 && b.len() == 1 {
        assert((a + b).drop_last() =~= a);
        assert((a + b).last() == b[0]);
    } else if a.len() > 0 && b.len() > 1 {
        law_joining(a, b.drop_last(), part, separator);
        assert((a + b).drop_last() =~= a + b.drop_last());
        assert((a + b).last() == b.last());
        assert(join_text(a + b, separator) =~= join_text(a, separator) + separator + join_text(
            b,
            separator,
        ));
    }
}

/// The pieces of a text hold no separator, there is at least one, and joined by the
/// separator they are the text.
pub proof fn law_pieces_join_back(s: Seq<char>, separator: char)
    ensures
        split_text(s, separator).len() > 0,
        forall|i: int|
            0 <= i < split_text(s, separator).len() ==> !(#[trigger] split_text(s, separator)[i]).contains(
                separator,
            ),
        join_text(split_text(s, separator), seq![separator]) == s,
    decreases s.len(),
{
    let pieces = split_text(s, separator);
    if s.len() == 0 {
        assert(s =~= Seq::<char>::empty());
    } else {
        let shorter = s.drop_last();
        let before = split_text(shorter, separator);
        law_pieces_join_back(shorter, separator);
        assert(shorter.push(s.last()) =~= s);
        if s.last() == separator {
            assert(pieces.drop_last() =~= before);
            assert(join_text(pieces, seq![separator]) =~= s);
        } else {
            let last = before.last();
            assert(before[before.len() - 1] == last);
            assert forall|i: int| 0 <= i < pieces.len() implies !(#[trigger] pieces[i]).contains(
                separator,
            ) by {
                if i < pieces.len() - 1 {
                    assert(pieces[i] == before[i]);
                } else if pieces[i].contains(separator) {
                    let k = choose|k: int| 0 <= k < pieces[i].len() && pieces[i][k] == separator;
                    assert(last[k] == separator);
                }
            }
            assert(pieces.drop_last() =~= before.drop_last());
            if before.len() > 1 {
                assert(join_text(pieces, seq![separator]) =~= join_text(before, seq![separator]).push(
                    s.last(),
                ));
            }
        }
    }
}

}
