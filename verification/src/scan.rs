//! The text scanner: finds phone-number-shaped substrings in arbitrary
//! Unicode text. The scan walks characters, not bytes, and reports each
//! candidate with byte offsets into the original text, valid for re-slicing
//! it. Candidates never overlap: scanning resumes right after the last
//! digit a candidate consumed, which is also where the candidate's span
//! ends.

use vstd::prelude::*;
use crate::chars::is_output_char;
use crate::chars::is_phone_digit;
use crate::chars::to_chars;
use crate::digits::digits_rep;
use crate::digits::lemma_digits_rep_wf;
use crate::filter::digits_of;
use crate::filter::lemma_digits_of_add;
use crate::filter::lemma_digits_of_push;
use crate::filter::lemma_digits_of_all;
use crate::filter::remove_non_digit_character;
use crate::registry::countries;
use crate::registry::spec_countries;
use crate::resolve::find_by_code;
use crate::resolve::spec_find_by_code;
use crate::normalize::normalize_phone_number;
use crate::normalize::spec_normalize;
use vstd::string::StrSliceExecFns;

verus! {

/// A separator the scanner may absorb between digit groups.
pub open spec fn is_sep(c: char) -> bool {
    c == '-' || c == '.' || c == ' '
}

/// An ASCII letter or digit; a digit preceded by one of these cannot start
/// a candidate (it would be the tail of a larger token).
pub open spec fn is_ascii_alnum(c: char) -> bool {
    ||| is_phone_digit(c)
    ||| (97 <= c as u32 && c as u32 <= 122)
    ||| (65 <= c as u32 && c as u32 <= 90)
}

/// Where a greedy consumption ended: the position of the last digit it
/// consumed (or its starting value when it consumed none) and the total
/// digit count.
pub struct ScanEnd {
    pub last: int,
    pub count: int,
}

/// The number of digits a candidate may consume at most.
pub open spec fn digit_ceiling() -> int {
    15
}

/// Greedy consumption from position `i` with `nd` digits seen, `depth`
/// parentheses open and `last` the last digit position so far: digits are
/// consumed up to the ceiling, parentheses must stay balanced, and a
/// separator is consumed only after a digit and only right before a digit
/// or an opening parenthesis.
pub open spec fn consume_from(s: Seq<char>, i: int, nd: int, depth: int, last: int) -> ScanEnd
    decreases s.len() - i,
{
    if i < 0 || i >= s.len() {
        ScanEnd { last, count: nd }
    } else {
        let c = s[i];
        if is_phone_digit(c) {
            if nd < digit_ceiling() {
                consume_from(s, i + 1, nd + 1, depth, i)
            } else {
                ScanEnd { last, count: nd }
            }
        } else if c == '(' {
            consume_from(s, i + 1, nd, depth + 1, last)
        } else if c == ')' {
            if depth > 0 {
                consume_from(s, i + 1, nd, depth - 1, last)
            } else {
                ScanEnd { last, count: nd }
            }
        } else if is_sep(c) {
            if nd > 0 && i + 1 < s.len() && (is_phone_digit(s[i + 1]) || s[i + 1] == '(') {
                consume_from(s, i + 1, nd, depth, last)
            } else {
                ScanEnd { last, count: nd }
            }
        } else {
            ScanEnd { last, count: nd }
        }
    }
}

/// Whether a candidate could start at position `i`: a plus sign or an
/// opening parenthesis directly before a digit, or a digit not preceded by
/// an alphanumeric character.
pub open spec fn could_start(s: Seq<char>, i: int) -> bool {
    if i < 0 || i >= s.len() {
        false
    } else {
        let c = s[i];
        ||| (c == '+' && i + 1 < s.len() && is_phone_digit(s[i + 1]))
        ||| (c == '(' && i + 1 < s.len() && is_phone_digit(s[i + 1]))
        ||| (is_phone_digit(c) && (i == 0 || !is_ascii_alnum(s[i - 1])))
    }
}

/// Consumption of the candidate starting at `i`; a single leading plus
/// sign is accepted before the digits.
pub open spec fn consume_at(s: Seq<char>, i: int) -> ScanEnd {
    if 0 <= i < s.len() && s[i] == '+' {
        consume_from(s, i + 1, 0, 0, i)
    } else {
        consume_from(s, i, 0, 0, i)
    }
}

/// A candidate span in character indices; the end is exclusive and sits
/// right after the last digit consumed.
pub struct Span {
    pub start: int,
    pub end: int,
}

/// The spans the scan reports from position `i` on: at every plausible
/// start the candidate is consumed, kept if it holds at least seven digits,
/// and the scan resumes right after the last digit consumed.
pub open spec fn spec_scan(s: Seq<char>, i: int) -> Seq<Span>
    decreases s.len() - i,
{
    if i < 0 || i >= s.len() {
        Seq::empty()
    } else if could_start(s, i) {
        let e = consume_at(s, i);
        let next = scan_resume(s, i, e);
        if e.count >= 7 {
            seq![Span { start: i, end: next }] + spec_scan(s, next)
        } else {
            spec_scan(s, next)
        }
    } else {
        spec_scan(s, i + 1)
    }
}

/// Where the scan resumes after the candidate at `i`: right after the last
/// digit consumed (and always forward, within the text).
pub open spec fn scan_resume(s: Seq<char>, i: int, e: ScanEnd) -> int {
    let next = if e.last + 1 > i {
        e.last + 1
    } else {
        i + 1
    };
    if next > s.len() {
        s.len() as int
    } else {
        next
    }
}

/// The UTF-8 width of a character.
pub open spec fn utf8_len_of(c: char) -> int {
    if (c as u32) < 0x80 {
        1
    } else if (c as u32) < 0x800 {
        2
    } else if (c as u32) < 0x10000 {
        3
    } else {
        4
    }
}

/// The byte offset of character position `i` in the UTF-8 encoding of `s`.
pub open spec fn byte_index(s: Seq<char>, i: int) -> int
    decreases i,
{
    if i <= 0 {
        0
    } else {
        byte_index(s, i - 1) + utf8_len_of(s[i - 1])
    }
}

/// Byte offsets grow strictly with character positions, so distinct
/// character spans give distinct, ordered byte spans.
pub proof fn lemma_byte_index_mono(s: Seq<char>, i: int, j: int)
    requires
        0 <= i <= j,
    ensures
        byte_index(s, i) <= byte_index(s, j),
        i < j ==> byte_index(s, i) + (j - i) <= byte_index(s, j),
    decreases j - i,
{
    if i < j {
        lemma_byte_index_mono(s, i, j - 1);
    }
}

/// The UTF-8 width of a character agrees with its encoding in vstd's
/// model, so the byte offsets here are offsets into `str::as_bytes`.
pub proof fn lemma_utf8_len_encode(c: char)
    ensures
        utf8_len_of(c) == vstd::utf8::encode_scalar(c as u32).len(),
{
    broadcast use vstd::utf8::char_is_scalar;

}

/// The byte offset of the end of a sequence is the length of its UTF-8
/// encoding, that is, of the byte slice of the corresponding `str`.
pub proof fn lemma_byte_index_total(s: Seq<char>)
    ensures
        byte_index(s, s.len() as int) == vstd::utf8::encode_utf8(s).len(),
    decreases s.len(),
{
    if s.len() == 0 {
    } else {
        let t = s.drop_first();
        lemma_byte_index_total(t);
        lemma_utf8_len_encode(s[0]);
        lemma_byte_index_shift(s, s.len() as int);
    }
}

/// Byte offsets shift by the first character's width when it is dropped.
proof fn lemma_byte_index_shift(s: Seq<char>, i: int)
    requires
        1 <= i <= s.len(),
    ensures
        byte_index(s, i) == utf8_len_of(s[0]) + byte_index(s.drop_first(), i - 1),
    decreases i,
{
    let t = s.drop_first();
    if i == 1 {
        assert(byte_index(s, 1) == byte_index(s, 0) + utf8_len_of(s[0]));
        assert(byte_index(t, 0) == 0);
    } else {
        lemma_byte_index_shift(s, i - 1);
        assert(t[i - 2] == s[i - 1]);
        assert(byte_index(s, i) == byte_index(s, i - 1) + utf8_len_of(s[i - 1]));
        assert(byte_index(t, i - 1) == byte_index(t, i - 2) + utf8_len_of(t[i - 2]));
    }
}

/// What consumption guarantees: the digit count never drops, and when it
/// grew, the last-digit position is a real position at or after the start.
pub proof fn lemma_consume_bounds(s: Seq<char>, i: int, nd: int, depth: int, last: int)
    requires
        0 <= i,
    ensures
        consume_from(s, i, nd, depth, last).count >= nd,
        consume_from(s, i, nd, depth, last).last == last || (i <= consume_from(
            s,
            i,
            nd,
            depth,
            last,
        ).last < s.len()),
        consume_from(s, i, nd, depth, last).count > nd ==> i <= consume_from(
            s,
            i,
            nd,
            depth,
            last,
        ).last < s.len(),
    decreases s.len() - i,
{
    if 0 <= i < s.len() {
        let c = s[i];
        if is_phone_digit(c) {
            if nd < digit_ceiling() {
                lemma_consume_bounds(s, i + 1, nd + 1, depth, i);
            }
        } else if c == '(' {
            lemma_consume_bounds(s, i + 1, nd, depth + 1, last);
        } else if c == ')' {
            if depth > 0 {
                lemma_consume_bounds(s, i + 1, nd, depth - 1, last);
            }
        } else if is_sep(c) {
            if nd > 0 && i + 1 < s.len() && (is_phone_digit(s[i + 1]) || s[i + 1] == '(') {
                lemma_consume_bounds(s, i + 1, nd, depth, last);
            }
        }
    }
}

/// The digit count a consumption reaches, and the last digit it finds,
/// do not depend on the initial last-digit value.
pub proof fn lemma_consume_last_irrelevant(
    s: Seq<char>,
    i: int,
    nd: int,
    depth: int,
    l1: int,
    l2: int,
)
    ensures
        consume_from(s, i, nd, depth, l1).count == consume_from(s, i, nd, depth, l2).count,
        consume_from(s, i, nd, depth, l1).count > nd ==> consume_from(s, i, nd, depth, l1).last
            == consume_from(s, i, nd, depth, l2).last,
    decreases s.len() - i,
{
    if 0 <= i < s.len() {
        let c = s[i];
        if is_phone_digit(c) {
            if nd < digit_ceiling() {
                lemma_consume_last_irrelevant(s, i + 1, nd + 1, depth, i, i);
                lemma_consume_bounds(s, i + 1, nd + 1, depth, i);
            }
        } else if c == '(' {
            lemma_consume_last_irrelevant(s, i + 1, nd, depth + 1, l1, l2);
        } else if c == ')' {
            if depth > 0 {
                lemma_consume_last_irrelevant(s, i + 1, nd, depth - 1, l1, l2);
            }
        } else if is_sep(c) {
            if nd > 0 && i + 1 < s.len() && (is_phone_digit(s[i + 1]) || s[i + 1] == '(') {
                lemma_consume_last_irrelevant(s, i + 1, nd, depth, l1, l2);
            }
        }
    }
}

/// A started candidate ends at or after its start.
pub proof fn lemma_consume_at_bounds(s: Seq<char>, i: int)
    requires
        0 <= i < s.len(),
    ensures
        consume_at(s, i).last == i || i <= consume_at(s, i).last < s.len(),
        consume_at(s, i).count >= 0,
        consume_at(s, i).count >= 7 ==> i <= consume_at(s, i).last < s.len(),
{
    if s[i] == '+' {
        lemma_consume_bounds(s, i + 1, 0, 0, i);
    } else {
        lemma_consume_bounds(s, i, 0, 0, i);
    }
}

/// The digits a consumption counted are exactly the digit characters of
/// the consumed range.
pub proof fn lemma_consume_digits(s: Seq<char>, i: int, nd: int, depth: int, last: int)
    requires
        0 <= i <= s.len(),
        last < i,
    ensures
        ({
            let e = consume_from(s, i, nd, depth, last);
            let hi = if e.last + 1 > i {
                e.last + 1
            } else {
                i
            };
            digits_of(s.subrange(i, hi)).len() == e.count - nd
        }),
    decreases s.len() - i,
{
    let e = consume_from(s, i, nd, depth, last);
    lemma_consume_bounds(s, i, nd, depth, last);
    if i >= s.len() {
        assert(s.subrange(i, i) =~= Seq::empty());
    } else {
        let c = s[i];
        let consumed = if is_phone_digit(c) {
            nd < digit_ceiling()
        } else if c == '(' {
            true
        } else if c == ')' {
            depth > 0
        } else if is_sep(c) {
            nd > 0 && i + 1 < s.len() && (is_phone_digit(s[i + 1]) || s[i + 1] == '(')
        } else {
            false
        };
        if !consumed {
            assert(e == ScanEnd { last, count: nd });
            assert(s.subrange(i, i) =~= Seq::empty());
        } else if is_phone_digit(c) {
            lemma_consume_digits(s, i + 1, nd + 1, depth, i);
            lemma_consume_bounds(s, i + 1, nd + 1, depth, i);
            let hi = if e.last + 1 > i + 1 {
                e.last + 1
            } else {
                i + 1
            };
            assert(s.subrange(i, hi) =~= seq![c] + s.subrange(i + 1, hi));
            lemma_digits_of_add(seq![c], s.subrange(i + 1, hi));
            assert(digits_of(seq![c]) =~= seq![c]) by {
                reveal_with_fuel(digits_of, 3);
                assert(seq![c].drop_last() =~= Seq::<char>::empty());
            }
            assert(e.last >= i);
        } else {
            let ndepth = if c == '(' {
                depth + 1
            } else if c == ')' {
                depth - 1
            } else {
                depth
            };
            lemma_consume_digits(s, i + 1, nd, ndepth, last);
            lemma_consume_bounds(s, i + 1, nd, ndepth, last);
            let hi = if e.last + 1 > i + 1 {
                e.last + 1
            } else {
                i + 1
            };
            if e.last + 1 > i {
                assert(s.subrange(i, hi) =~= seq![c] + s.subrange(i + 1, hi));
                lemma_digits_of_add(seq![c], s.subrange(i + 1, hi));
                assert(digits_of(seq![c]) =~= Seq::<char>::empty()) by {
                    reveal_with_fuel(digits_of, 3);
                    assert(seq![c].drop_last() =~= Seq::<char>::empty());
                }
            } else {
                assert(s.subrange(i, i) =~= Seq::empty());
            }
        }
    }
}

/// The spans the scan reports are inside the text, start no earlier than
/// where the scan stood, and are strictly increasing and non-overlapping.
pub proof fn lemma_scan_spans(s: Seq<char>, i: int)
    requires
        0 <= i,
    ensures
        forall|k: int|
            0 <= k < spec_scan(s, i).len() ==> i <= (#[trigger] spec_scan(s, i)[k]).start < spec_scan(
                s,
                i,
            )[k].end <= s.len(),
        forall|k: int|
            0 <= k < spec_scan(s, i).len() - 1 ==> (#[trigger] spec_scan(s, i)[k]).end <= spec_scan(
                s,
                i,
            )[k + 1].start,
    decreases s.len() - i,
{
    if i >= s.len() {
    } else if could_start(s, i) {
        let e = consume_at(s, i);
        lemma_consume_at_bounds(s, i);
        let next = scan_resume(s, i, e);
        assert(i < next <= s.len());
        lemma_scan_spans(s, next);
        if e.count >= 7 {
            assert(next == e.last + 1);
            let ghost sp = Span { start: i, end: next };
            let rest = spec_scan(s, next);
            let full = spec_scan(s, i);
            assert(full == seq![sp] + rest);
            assert forall|k: int| 0 <= k < full.len() implies i <= (#[trigger] full[k]).start
                < full[k].end <= s.len() by {
                if k == 0 {
                    assert(full[0] == sp);
                } else {
                    assert(full[k] == rest[k - 1]);
                    assert(next <= rest[k - 1].start < rest[k - 1].end <= s.len());
                }
            }
            assert forall|k: int| 0 <= k < full.len() - 1 implies (#[trigger] full[k]).end
                <= full[k + 1].start by {
                if k == 0 {
                    assert(full[0] == sp);
                    assert(full[1] == rest[0]);
                    assert(next <= rest[0].start);
                } else {
                    assert(full[k] == rest[k - 1]);
                    assert(full[k + 1] == rest[k]);
                    assert(rest[k - 1].end <= rest[k].start);
                }
            }
        } else {
            assert(spec_scan(s, i) == spec_scan(s, next));
            let rest = spec_scan(s, next);
            assert forall|k: int| 0 <= k < spec_scan(s, i).len() implies i <= (
            #[trigger] spec_scan(s, i)[k]).start < spec_scan(s, i)[k].end <= s.len() by {
                assert(spec_scan(s, i)[k] == rest[k]);
                assert(next <= rest[k].start);
            }
            assert forall|k: int| 0 <= k < spec_scan(s, i).len() - 1 implies (
            #[trigger] spec_scan(s, i)[k]).end <= spec_scan(s, i)[k + 1].start by {
                assert(spec_scan(s, i)[k] == rest[k]);
                assert(spec_scan(s, i)[k + 1] == rest[k + 1]);
                assert(rest[k].end <= rest[k + 1].start);
            }
        }
    } else {
        lemma_scan_spans(s, i + 1);
        let rest = spec_scan(s, i + 1);
        assert(spec_scan(s, i) == rest);
        assert forall|k: int| 0 <= k < spec_scan(s, i).len() implies i <= (
        #[trigger] spec_scan(s, i)[k]).start < spec_scan(s, i)[k].end <= s.len() by {
            assert(spec_scan(s, i)[k] == rest[k]);
            assert(i + 1 <= rest[k].start);
        }
        assert forall|k: int| 0 <= k < spec_scan(s, i).len() - 1 implies (
        #[trigger] spec_scan(s, i)[k]).end <= spec_scan(s, i)[k + 1].start by {
            assert(spec_scan(s, i)[k] == rest[k]);
            assert(spec_scan(s, i)[k + 1] == rest[k + 1]);
            assert(rest[k].end <= rest[k + 1].start);
        }
    }
}

/// Every span the scan reports holds at least seven digits in its raw
/// substring.
pub proof fn lemma_scan_min_digits(s: Seq<char>, i: int)
    requires
        0 <= i,
    ensures
        forall|k: int|
            0 <= k < spec_scan(s, i).len() ==> digits_of(
                s.subrange(
                    (#[trigger] spec_scan(s, i)[k]).start,
                    spec_scan(s, i)[k].end,
                ),
            ).len() >= 7,
    decreases s.len() - i,
{
    if i >= s.len() {
    } else if could_start(s, i) {
        let e = consume_at(s, i);
        lemma_consume_at_bounds(s, i);
        let next = scan_resume(s, i, e);
        assert(i < next <= s.len());
        lemma_scan_min_digits(s, next);
        if e.count >= 7 {
            let ghost sp = Span { start: i, end: next };
            let rest = spec_scan(s, next);
            let full = spec_scan(s, i);
            assert(full == seq![sp] + rest);
            assert(next == e.last + 1);
            if s[i] == '+' {
                lemma_consume_digits(s, i + 1, 0, 0, i);
                lemma_consume_bounds(s, i + 1, 0, 0, i);
                assert(e.last >= i + 1);
                assert(s.subrange(i, next) =~= seq![s[i]] + s.subrange(i + 1, next));
                lemma_digits_of_add(seq![s[i]], s.subrange(i + 1, next));
                assert(digits_of(seq![s[i]]) =~= Seq::<char>::empty()) by {
                    reveal_with_fuel(digits_of, 3);
                    assert(seq![s[i]].drop_last() =~= Seq::<char>::empty());
                }
            } else {
                lemma_consume_digits(s, i, 0, 0, i - 1);
                lemma_consume_last_irrelevant(s, i, 0, 0, i, i - 1);
                lemma_consume_bounds(s, i, 0, 0, i - 1);
                let e2 = consume_from(s, i, 0, 0, i - 1);
                assert(e2.count == e.count && e2.last == e.last);
            }
            assert(digits_of(s.subrange(i, next)).len() >= 7);
            assert forall|k: int| 0 <= k < full.len() implies digits_of(
                s.subrange((#[trigger] full[k]).start, full[k].end),
            ).len() >= 7 by {
                if k == 0 {
                    assert(full[0] == sp);
                } else {
                    assert(full[k] == rest[k - 1]);
                    assert(digits_of(s.subrange(rest[k - 1].start, rest[k - 1].end)).len() >= 7);
                }
            }
        } else {
            assert(spec_scan(s, i) == spec_scan(s, next));
            let rest = spec_scan(s, next);
            assert forall|k: int| 0 <= k < spec_scan(s, i).len() implies digits_of(
                s.subrange((#[trigger] spec_scan(s, i)[k]).start, spec_scan(s, i)[k].end),
            ).len() >= 7 by {
                assert(spec_scan(s, i)[k] == rest[k]);
                assert(digits_of(s.subrange(rest[k].start, rest[k].end)).len() >= 7);
            }
        }
    } else {
        lemma_scan_min_digits(s, i + 1);
        let rest = spec_scan(s, i + 1);
        assert(spec_scan(s, i) == rest);
        assert forall|k: int| 0 <= k < spec_scan(s, i).len() implies digits_of(
            s.subrange((#[trigger] spec_scan(s, i)[k]).start, spec_scan(s, i)[k].end),
        ).len() >= 7 by {
            assert(spec_scan(s, i)[k] == rest[k]);
            assert(digits_of(s.subrange(rest[k].start, rest[k].end)).len() >= 7);
        }
    }
}

/// One candidate the scanner extracted: the raw substring, its byte span
/// in the original text, and what normalization made of it.
#[derive(Debug, Clone)]
pub struct ExtractedCandidate {
    pub raw_substring: String,
    pub byte_start: usize,
    pub byte_end: usize,
    pub normalized: Option<String>,
    pub is_valid: bool,
}

/// A correctly reported candidate for the span `sp` of text `s`.
pub open spec fn candidate_ok(c: ExtractedCandidate, s: Seq<char>, sp: Span) -> bool {
    &&& c.raw_substring@ == s.subrange(sp.start, sp.end)
    &&& c.byte_start == byte_index(s, sp.start)
    &&& c.byte_end == byte_index(s, sp.end)
    &&& match c.normalized {
        Some(t) => spec_normalize(s.subrange(sp.start, sp.end)) == Some(t@),
        None => spec_normalize(s.subrange(sp.start, sp.end)) is None,
    }
    &&& c.is_valid == (spec_normalize(s.subrange(sp.start, sp.end)) is Some)
}

/// The UTF-8 width of a character, executably.
fn char_width(c: char) -> (w: usize)
    ensures
        w as int == utf8_len_of(c),
{
    let u = c as u32;
    if u < 0x80 {
        1
    } else if u < 0x800 {
        2
    } else if u < 0x10000 {
        3
    } else {
        4
    }
}

/// A correctly reported span record: character span, then byte span.
pub open spec fn span_rec_ok(t: (usize, usize, usize, usize), s: Seq<char>, sp: Span) -> bool {
    &&& t.0 == sp.start
    &&& t.1 == sp.end
    &&& t.2 == byte_index(s, sp.start)
    &&& t.3 == byte_index(s, sp.end)
}

/// Finds the candidate spans of a text: character indices and the matching
/// byte offsets, in text order.
fn scan_spans(text: &str) -> (r: Vec<(usize, usize, usize, usize)>)
    ensures
        r@.len() == spec_scan(text@, 0).len(),
        forall|k: int|
            0 <= k < r@.len() ==> span_rec_ok(#[trigger] r@[k], text@, spec_scan(text@, 0)[k]),
{
    let s = to_chars(text);
    let n = s.len();
    let tb = text.as_bytes();
    proof {
        broadcast use vstd::slice::axiom_spec_len;

        assert(vstd::slice::spec_slice_len(tb) == tb@.len());
        assert(tb@.len() <= usize::MAX);
        lemma_byte_index_total(text@);
        assert(byte_index(text@, n as int) <= usize::MAX);
    }
    let mut r: Vec<(usize, usize, usize, usize)> = Vec::new();
    let ghost all = spec_scan(text@, 0);
    let ghost done: Seq<Span> = Seq::empty();
    let mut i: usize = 0;
    let mut b: usize = 0;
    proof {
        assert(done + spec_scan(text@, 0) =~= all);
    }
    while i < n
        invariant
            i <= n,
            n == s@.len(),
            s@ == text@,
            b as int == byte_index(text@, i as int),
            byte_index(text@, n as int) <= usize::MAX,
            all == spec_scan(text@, 0),
            done + spec_scan(text@, i as int) == all,
            r@.len() == done.len(),
            forall|k: int| 0 <= k < r@.len() ==> span_rec_ok(#[trigger] r@[k], text@, done[k]),
        decreases n - i,
    {
        let c = s[i];
        let start_here: bool = if c == '+' || c == '(' {
            i + 1 < n && crate::chars::digit_check(s[i + 1])
        } else if crate::chars::digit_check(c) {
            if i == 0 {
                true
            } else {
                let p = s[i - 1];
                let u = p as u32;
                !(
                (48 <= u && u <= 57) || (97 <= u && u <= 122) || (65 <= u && u <= 90))
            }
        } else {
            false
        };
        proof {
            assert(start_here == could_start(text@, i as int));
        }
        if !start_here {
            let w = char_width(c);
            proof {
                lemma_byte_index_mono(text@, i + 1, n as int);
            }
            i = i + 1;
            b = b + w;
            proof {
                assert(b as int == byte_index(text@, i as int));
            }
            continue;
        }
        // consume the candidate
        let ghost e = consume_at(text@, i as int);
        let mut j: usize;
        let mut nd: usize = 0;
        let mut depth: usize = 0;
        let mut last: usize = i;
        let mut jb: usize;
        let mut last_end_b: usize = b;
        if c == '+' {
            proof {
                lemma_byte_index_mono(text@, i + 1, n as int);
            }
            j = i + 1;
            jb = b + char_width(c);
        } else {
            j = i;
            jb = b;
        }
        proof {
            assert(e == consume_from(text@, j as int, 0, 0, i as int));
            assert(jb as int == byte_index(text@, j as int));
        }
        let ghost js = j as int;
        loop
            invariant
                i <= j <= n,
                n == s@.len(),
                s@ == text@,
                depth <= j,
                nd <= 15,
                jb as int == byte_index(text@, j as int),
                last_end_b as int == byte_index(
                    text@,
                    if nd > 0 {
                        last + 1
                    } else {
                        i as int
                    },
                ),
                nd > 0 ==> i <= last < j,
                nd == 0 ==> last == i,
                byte_index(text@, n as int) <= usize::MAX,
                e == consume_from(text@, j as int, nd as int, depth as int, last as int),
            ensures
                e.last == last as int || (nd == 0 && e.last == i as int),
                e.count == nd,
                nd > 0 ==> last_end_b as int == byte_index(text@, last + 1),
                i <= j <= n,
                n == s@.len(),
                s@ == text@,
                nd > 0 ==> i <= last < n,
                nd == 0 ==> last == i,
            decreases n - j,
        {
            if j >= n {
                break ;
            }
            let cj = s[j];
            let w = char_width(cj);
            proof {
                lemma_byte_index_mono(text@, j + 1, n as int);
            }
            if crate::chars::digit_check(cj) {
                if nd < 15 {
                    nd = nd + 1;
                    last = j;
                    j = j + 1;
                    jb = jb + w;
                    last_end_b = jb;
                } else {
                    break ;
                }
            } else if cj == '(' {
                depth = depth + 1;
                j = j + 1;
                jb = jb + w;
            } else if cj == ')' {
                if depth > 0 {
                    depth = depth - 1;
                    j = j + 1;
                    jb = jb + w;
                } else {
                    break ;
                }
            } else if cj == '-' || cj == '.' || cj == ' ' {
                if nd > 0 && j + 1 < n && {
                    let nx = s[j + 1];
                    crate::chars::digit_check(nx) || nx == '('
                } {
                    j = j + 1;
                    jb = jb + w;
                } else {
                    break ;
                }
            } else {
                break ;
            }
        }
        // the candidate is rejected below seven digits
        if nd >= 7 {
            proof {
                assert(e.count == nd as int);
                assert(e.last == last as int);
                assert(i <= last < n);
            }
            let rec = (i, last + 1, b, last_end_b);
            let ghost sp = Span { start: i as int, end: last + 1 };
            proof {
                assert(span_rec_ok(rec, text@, sp));
                assert(spec_scan(text@, i as int) == seq![sp] + spec_scan(text@, last + 1));
                done = done.push(sp);
            }
            r.push(rec);
            i = last + 1;
            b = last_end_b;
            proof {
                assert(done + spec_scan(text@, i as int) =~= all);
            }
        } else {
            proof {
                let next = if e.last + 1 > i as int {
                    e.last + 1
                } else {
                    i as int + 1
                };
                assert(spec_scan(text@, i as int) == spec_scan(text@, next));
            }
            if nd > 0 {
                i = last + 1;
                b = last_end_b;
            } else {
                let w = char_width(c);
                proof {
                    lemma_byte_index_mono(text@, i + 1, n as int);
                }
                i = i + 1;
                b = b + w;
            }
        }
    }
    proof {
        assert(done =~= all);
    }
    r
}

/// Scans a text for phone-number-shaped substrings and reports each with
/// its byte span and normalization outcome. Candidates are in text order
/// with strictly increasing, non-overlapping spans, and each holds at
/// least seven digits.
pub fn extract_all_from_text(text: &str) -> (r: Vec<ExtractedCandidate>)
    ensures
        r@.len() == spec_scan(text@, 0).len(),
        forall|k: int|
            0 <= k < r@.len() ==> candidate_ok(#[trigger] r@[k], text@, spec_scan(text@, 0)[k]),
{
    let spans = scan_spans(text);
    let ghost sps = spec_scan(text@, 0);
    proof {
        lemma_scan_spans(text@, 0);
    }
    let n = spans.len();
    let mut r: Vec<ExtractedCandidate> = Vec::new();
    let mut k: usize = 0;
    while k < n
        invariant
            k <= n,
            n == sps.len(),
            sps == spec_scan(text@, 0),
            spans@.len() == n,
            forall|j: int|
                0 <= j < spans@.len() ==> span_rec_ok(#[trigger] spans@[j], text@, sps[j]),
            forall|j: int| 0 <= j < sps.len() ==> 0 <= (#[trigger] sps[j]).start < sps[j].end
                <= text@.len(),
            r@.len() == k,
            forall|j: int| 0 <= j < r@.len() ==> candidate_ok(#[trigger] r@[j], text@, sps[j]),
        decreases n - k,
    {
        let rec = spans[k];
        proof {
            assert(span_rec_ok(rec, text@, sps[k as int]));
        }
        let raw = text.substring_char(rec.0, rec.1);
        let raw_string: String = raw.to_owned();
        let for_norm: String = raw_string.clone();
        let normalized = normalize_phone_number(for_norm);
        let is_valid = normalized.is_some();
        let cand = ExtractedCandidate {
            raw_substring: raw_string,
            byte_start: rec.2,
            byte_end: rec.3,
            normalized,
            is_valid,
        };
        proof {
            assert(candidate_ok(cand, text@, sps[k as int]));
        }
        r.push(cand);
        k = k + 1;
    }
    r
}

/// The spans among `spans` whose raw substring normalizes.
pub open spec fn valid_spans(s: Seq<char>, spans: Seq<Span>) -> Seq<Span>
    decreases spans.len(),
{
    if spans.len() == 0 {
        Seq::empty()
    } else {
        let rest = valid_spans(s, spans.drop_last());
        if spec_normalize(s.subrange(spans.last().start, spans.last().end)) is Some {
            rest.push(spans.last())
        } else {
            rest
        }
    }
}

/// The candidates of a text whose raw substring is a valid phone number.
pub fn extract_valid_only(text: &str) -> (r: Vec<ExtractedCandidate>)
    ensures
        r@.len() == valid_spans(text@, spec_scan(text@, 0)).len(),
        forall|k: int|
            0 <= k < r@.len() ==> candidate_ok(
                #[trigger] r@[k],
                text@,
                valid_spans(text@, spec_scan(text@, 0))[k],
            ),
{
    let mut all = extract_all_from_text(text);
    let ghost spans = spec_scan(text@, 0);
    let n = all.len();
    let mut r: Vec<ExtractedCandidate> = Vec::new();
    let mut i: usize = 0;
    proof {
        assert(spans.take(0) =~= Seq::<Span>::empty());
    }
    while i < n
        invariant
            i <= n,
            n == spans.len(),
            all@.len() == n - i,
            spans == spec_scan(text@, 0),
            forall|k: int|
                0 <= k < all@.len() ==> candidate_ok(#[trigger] all@[k], text@, spans[k + i]),
            r@.len() == valid_spans(text@, spans.take(i as int)).len(),
            forall|k: int|
                0 <= k < r@.len() ==> candidate_ok(
                    #[trigger] r@[k],
                    text@,
                    valid_spans(text@, spans.take(i as int))[k],
                ),
        decreases n - i,
    {
        let c = all.remove(0);
        proof {
            assert(candidate_ok(c, text@, spans[i as int]));
            assert(spans.take(i + 1).drop_last() =~= spans.take(i as int));
            assert(spans.take(i + 1).last() == spans[i as int]);
        }
        if c.is_valid {
            r.push(c);
        }
        i = i + 1;
        proof {
            assert(forall|k: int|
                0 <= k < all@.len() ==> candidate_ok(#[trigger] all@[k], text@, spans[k + i]));
        }
    }
    proof {
        assert(spans.take(n as int) =~= spans);
    }
    r
}

/// Counts the valid phone numbers a text holds.
pub fn count_in_text(text: &str) -> (r: usize)
    ensures
        r as int == valid_spans(text@, spec_scan(text@, 0)).len(),
{
    let found = extract_valid_only(text);
    found.len()
}

/// Normalization with a country hint: the raw substring itself first; if
/// that fails, the hinted country's dialing prefix is prepended to the
/// digit-only form of the substring and normalization is tried again. An
/// unknown hint leaves the failure in place.
pub open spec fn spec_hint_normalize(raw: Seq<char>, code: Seq<char>) -> Option<Seq<char>> {
    match spec_normalize(raw) {
        Some(t) => Some(t),
        None => match spec_find_by_code(spec_countries(), code) {
            None => None,
            Some(i) => spec_normalize(
                digits_rep(spec_countries()[i].prefix as int) + digits_of(raw),
            ),
        },
    }
}

/// A correctly reported candidate under a country hint.
pub open spec fn candidate_hint_ok(
    c: ExtractedCandidate,
    s: Seq<char>,
    sp: Span,
    code: Seq<char>,
) -> bool {
    &&& c.raw_substring@ == s.subrange(sp.start, sp.end)
    &&& c.byte_start == byte_index(s, sp.start)
    &&& c.byte_end == byte_index(s, sp.end)
    &&& match c.normalized {
        Some(t) => spec_hint_normalize(s.subrange(sp.start, sp.end), code) == Some(t@),
        None => spec_hint_normalize(s.subrange(sp.start, sp.end), code) is None,
    }
    &&& c.is_valid == (spec_hint_normalize(s.subrange(sp.start, sp.end), code) is Some)
}

/// Scans like `extract_all_from_text`, but when a candidate fails to
/// normalize, retries with the hinted country's dialing prefix prepended to
/// the candidate's digits; the hint takes priority over an ambiguous
/// default interpretation.
pub fn extract_with_country_hint(text: &str, country_code: &str) -> (r: Vec<ExtractedCandidate>)
    ensures
        r@.len() == spec_scan(text@, 0).len(),
        forall|k: int|
            0 <= k < r@.len() ==> candidate_hint_ok(
                #[trigger] r@[k],
                text@,
                spec_scan(text@, 0)[k],
                country_code@,
            ),
{
    let mut all = extract_all_from_text(text);
    let ghost spans = spec_scan(text@, 0);
    let reg = countries();
    let hint_prefix: Option<u32> = match find_by_code(&reg, country_code) {
        Some(h) => {
            proof {
                assert(spec_countries()[h as int] == reg@[h as int]@);
            }
            Some(reg[h].prefix)
        },
        None => None,
    };
    proof {
        match hint_prefix {
            Some(p) => {
                assert(spec_find_by_code(spec_countries(), country_code@) is Some);
                assert(spec_countries()[spec_find_by_code(
                    spec_countries(),
                    country_code@,
                )->Some_0].prefix == p);
            },
            None => {
                assert(spec_find_by_code(spec_countries(), country_code@) is None);
            },
        }
    }
    let n = all.len();
    let mut r: Vec<ExtractedCandidate> = Vec::new();
    let mut i: usize = 0;
    while i < n
        invariant
            i <= n,
            n == spans.len(),
            all@.len() == n - i,
            spans == spec_scan(text@, 0),
            match hint_prefix {
                Some(p) => spec_find_by_code(spec_countries(), country_code@) is Some
                    && spec_countries()[spec_find_by_code(
                    spec_countries(),
                    country_code@,
                )->Some_0].prefix == p,
                None => spec_find_by_code(spec_countries(), country_code@) is None,
            },
            forall|k: int|
                0 <= k < all@.len() ==> candidate_ok(#[trigger] all@[k], text@, spans[k + i]),
            r@.len() == i,
            forall|k: int|
                0 <= k < r@.len() ==> candidate_hint_ok(
                    #[trigger] r@[k],
                    text@,
                    spans[k],
                    country_code@,
                ),
        decreases n - i,
    {
        let mut c = all.remove(0);
        proof {
            assert(candidate_ok(c, text@, spans[i as int]));
        }
        if !c.is_valid {
            if let Some(p) = hint_prefix {
                let cs = to_chars(c.raw_substring.as_str());
                let d = remove_non_digit_character(&cs);
                let prefix_digits = crate::digits::u32_to_digits(p);
                proof {
                    lemma_digits_rep_wf(p as int);
                    lemma_digits_of_all(cs@);
                    assert(forall|j: int|
                        0 <= j < prefix_digits@.len() ==> is_output_char(
                            #[trigger] prefix_digits@[j],
                        ));
                    assert(forall|j: int| 0 <= j < d@.len() ==> is_output_char(#[trigger] d@[j]));
                }
                let mut attempt_chars = prefix_digits;
                let mut k: usize = 0;
                let dn = d.len();
                let ghost base = attempt_chars@;
                while k < dn
                    invariant
                        k <= dn,
                        dn == d@.len(),
                        forall|j: int| 0 <= j < d@.len() ==> is_output_char(#[trigger] d@[j]),
                        forall|j: int| 0 <= j < base.len() ==> is_output_char(#[trigger] base[j]),
                        attempt_chars@ == base + d@.subrange(0, k as int),
                    decreases dn - k,
                {
                    attempt_chars.push(d[k]);
                    k = k + 1;
                    proof {
                        assert(attempt_chars@ =~= base + d@.subrange(0, k as int));
                    }
                }
                proof {
                    assert(attempt_chars@ =~= base + d@);
                    assert(forall|j: int|
                        0 <= j < attempt_chars@.len() ==> is_output_char(
                            #[trigger] attempt_chars@[j],
                        ));
                }
                let attempt = crate::chars::chars_to_string(&attempt_chars);
                let retried = normalize_phone_number(attempt);
                c.is_valid = retried.is_some();
                c.normalized = retried;
            }
        }
        proof {
            assert(candidate_hint_ok(c, text@, spans[i as int], country_code@));
        }
        r.push(c);
        i = i + 1;
        proof {
            assert(forall|k: int|
                0 <= k < all@.len() ==> candidate_ok(#[trigger] all@[k], text@, spans[k + i]));
        }
    }
    r
}

/// Masking a range: each digit is replaced by `'*'` while `m` digits remain
/// to veil; every other character is kept.
pub open spec fn mask_range(s: Seq<char>, j: int, end: int, m: int) -> Seq<char>
    decreases end - j,
{
    if j < 0 || j >= end || j >= s.len() {
        Seq::empty()
    } else if is_phone_digit(s[j]) && m > 0 {
        seq!['*'] + mask_range(s, j + 1, end, m - 1)
    } else {
        seq![s[j]] + mask_range(s, j + 1, end, m)
    }
}

/// The masked form of one candidate span: all but the trailing `visible`
/// digits become `'*'`; when `visible` covers every digit, the whole span
/// becomes a fixed placeholder instead of leaking unmasked.
pub open spec fn spec_mask_span(s: Seq<char>, sp: Span, visible: int) -> Seq<char> {
    let dn = digits_of(s.subrange(sp.start, sp.end)).len() as int;
    if visible >= dn {
        seq!['[', 'r', 'e', 'd', 'a', 'c', 't', 'e', 'd', ']']
    } else {
        mask_range(s, sp.start, sp.end, dn - visible)
    }
}

/// Redaction of a text from position `pos` on: the unmatched stretches stay
/// verbatim and each candidate span is masked.
pub open spec fn spec_redact_from(s: Seq<char>, spans: Seq<Span>, pos: int, visible: int) -> Seq<
    char,
>
    decreases spans.len(),
{
    if spans.len() == 0 {
        s.subrange(pos, s.len() as int)
    } else {
        s.subrange(pos, spans[0].start) + spec_mask_span(s, spans[0], visible) + spec_redact_from(
            s,
            spans.drop_first(),
            spans[0].end,
            visible,
        )
    }
}

pub open spec fn spec_redact(s: Seq<char>, visible: int) -> Seq<char> {
    spec_redact_from(s, spec_scan(s, 0), 0, visible)
}

/// Replaces the phone numbers of a text with masked forms: every candidate
/// keeps only its trailing `visible` digits (or becomes a fixed placeholder
/// when `visible` covers all of them), while all unmatched text stays
/// verbatim.
#[verifier::rlimit(60)]
pub fn redact(text: &str, visible: usize) -> (r: String)
    ensures
        r@ == spec_redact(text@, visible as int),
{
    let sv = to_chars(text);
    let n = sv.len();
    let spans = scan_spans(text);
    let ghost sps = spec_scan(text@, 0);
    proof {
        lemma_scan_spans(text@, 0);
    }
    let m = spans.len();
    let mut out = String::new();
    let mut pos: usize = 0;
    let mut k: usize = 0;
    proof {
        assert(sps.skip(0) =~= sps);
        assert(out@ + spec_redact_from(text@, sps, 0, visible as int) =~= spec_redact(
            text@,
            visible as int,
        ));
    }
    while k < m
        invariant
            k <= m,
            m == sps.len(),
            n == sv@.len(),
            sv@ == text@,
            sps == spec_scan(text@, 0),
            spans@.len() == m,
            forall|j: int|
                0 <= j < spans@.len() ==> span_rec_ok(#[trigger] spans@[j], text@, sps[j]),
            forall|j: int| 0 <= j < sps.len() ==> 0 <= (#[trigger] sps[j]).start < sps[j].end
                <= text@.len(),
            forall|j: int| 0 <= j < sps.len() - 1 ==> (#[trigger] sps[j]).end <= sps[j + 1].start,
            pos <= n,
            k < m ==> pos <= sps[k as int].start,
            out@ + spec_redact_from(text@, sps.skip(k as int), pos as int, visible as int)
                == spec_redact(text@, visible as int),
        decreases m - k,
    {
        let rec = spans[k];
        let st = rec.0;
        let en = rec.1;
        proof {
            assert(span_rec_ok(rec, text@, sps[k as int]));
            assert(sps.skip(k as int)[0] == sps[k as int]);
            assert(sps.skip(k as int).drop_first() =~= sps.skip(k + 1));
        }
        let ghost before_piece = out@;
        out.append(text.substring_char(pos, st));
        // how many digits the span holds
        let mut dn: usize = 0;
        let mut j: usize = st;
        proof {
            assert(text@.subrange(st as int, st as int) =~= Seq::<char>::empty());
        }
        while j < en
            invariant
                st <= j <= en <= n,
                n == sv@.len(),
                sv@ == text@,
                dn <= j - st,
                dn as int == digits_of(text@.subrange(st as int, j as int)).len(),
            decreases en - j,
        {
            if crate::chars::digit_check(sv[j]) {
                dn = dn + 1;
            }
            j = j + 1;
            proof {
                assert(text@.subrange(st as int, j as int) =~= text@.subrange(
                    st as int,
                    j - 1,
                ).push(text@[j - 1]));
                lemma_digits_of_push(text@.subrange(st as int, j - 1), text@[j - 1]);
            }
        }
        let ghost masked_base = out@;
        if visible >= dn {
            proof {
                reveal_strlit("[redacted]");
            }
            out.append("[redacted]");
            proof {
                assert(out@ =~= masked_base + spec_mask_span(
                    text@,
                    sps[k as int],
                    visible as int,
                ));
            }
        } else {
            let mut veil: usize = dn - visible;
            let mut j: usize = st;
            while j < en
                invariant
                    st <= j <= en <= n,
                    n == sv@.len(),
                    sv@ == text@,
                    out@ + mask_range(text@, j as int, en as int, veil as int) == masked_base
                        + mask_range(text@, st as int, en as int, (dn - visible) as int),
                decreases en - j,
            {
                let c = sv[j];
                if crate::chars::digit_check(c) && veil > 0 {
                    crate::chars::push_output_char(&mut out, '*');
                    veil = veil - 1;
                } else {
                    out.append(text.substring_char(j, j + 1));
                    proof {
                        assert(text@.subrange(j as int, j + 1) =~= seq![text@[j as int]]);
                    }
                }
                j = j + 1;
                proof {
                    assert(out@ + mask_range(text@, j as int, en as int, veil as int)
                        =~= masked_base + mask_range(
                        text@,
                        st as int,
                        en as int,
                        (dn - visible) as int,
                    ));
                }
            }
            proof {
                assert(mask_range(text@, en as int, en as int, veil as int)
                    =~= Seq::<char>::empty());
                assert(out@ =~= masked_base + spec_mask_span(
                    text@,
                    sps[k as int],
                    visible as int,
                ));
            }
        }
        pos = en;
        k = k + 1;
        proof {
            assert(out@ + spec_redact_from(text@, sps.skip(k as int), pos as int, visible as int)
                =~= spec_redact(text@, visible as int));
        }
    }
    out.append(text.substring_char(pos, n));
    proof {
        assert(sps.skip(m as int).len() == 0);
        assert(out@ =~= spec_redact(text@, visible as int));
    }
    out
}

/// Splicing replacements into a text: unmatched stretches stay verbatim and
/// each candidate span becomes its replacement.
pub open spec fn spec_splice(s: Seq<char>, spans: Seq<Span>, reps: Seq<Seq<char>>, pos: int) -> Seq<
    char,
>
    decreases spans.len(),
{
    if spans.len() == 0 || reps.len() == 0 {
        s.subrange(pos, s.len() as int)
    } else {
        s.subrange(pos, spans[0].start) + reps[0] + spec_splice(
            s,
            spans.drop_first(),
            reps.drop_first(),
            spans[0].end,
        )
    }
}

/// Applies a caller-supplied transform to every candidate of a text and
/// splices the results back into the text, keeping every unmatched stretch
/// verbatim and every candidate in place.
#[verifier::rlimit(100)]
pub fn replace_in_text<F: Fn(&ExtractedCandidate) -> String>(text: &str, transform: F) -> (r:
    String)
    requires
        forall|c: ExtractedCandidate| #[trigger] transform.requires((&c,)),
    ensures
        exists|cands: Seq<ExtractedCandidate>, reps: Seq<String>|
            #![trigger cands.len(), reps.len()]
            {
                &&& cands.len() == spec_scan(text@, 0).len()
                &&& reps.len() == spec_scan(text@, 0).len()
                &&& forall|k: int|
                    0 <= k < cands.len() ==> candidate_ok(
                        #[trigger] cands[k],
                        text@,
                        spec_scan(text@, 0)[k],
                    )
                &&& forall|k: int|
                    0 <= k < reps.len() ==> transform.ensures((&cands[k],), #[trigger] reps[k])
                &&& r@ == spec_splice(
                    text@,
                    spec_scan(text@, 0),
                    reps.map_values(|x: String| x@),
                    0,
                )
            },
{
    let spans = scan_spans(text);
    let ghost sps = spec_scan(text@, 0);
    proof {
        lemma_scan_spans(text@, 0);
    }
    let n = text.unicode_len();
    let m = spans.len();
    let mut out = String::new();
    let mut pos: usize = 0;
    let mut k: usize = 0;
    let ghost cands: Seq<ExtractedCandidate> = Seq::empty();
    let ghost repsv: Seq<Seq<char>> = Seq::empty();
    let ghost reps: Seq<String> = Seq::empty();
    proof {
        assert forall|rt: Seq<Seq<char>>|
            spec_splice(text@, sps, repsv + rt, 0) == out@ + #[trigger] spec_splice(
                text@,
                sps.skip(0),
                rt,
                0,
            ) by {
            assert(sps.skip(0) =~= sps);
            assert(repsv + rt =~= rt);
            assert(out@ + spec_splice(text@, sps, rt, 0) =~= spec_splice(text@, sps, rt, 0));
        }
    }
    while k < m
        invariant
            k <= m,
            m == sps.len(),
            n == text@.len(),
            sps == spec_scan(text@, 0),
            spans@.len() == m,
            forall|c: ExtractedCandidate| #[trigger] transform.requires((&c,)),
            forall|j: int|
                0 <= j < spans@.len() ==> span_rec_ok(#[trigger] spans@[j], text@, sps[j]),
            forall|j: int| 0 <= j < sps.len() ==> 0 <= (#[trigger] sps[j]).start < sps[j].end
                <= text@.len(),
            forall|j: int| 0 <= j < sps.len() - 1 ==> (#[trigger] sps[j]).end <= sps[j + 1].start,
            pos <= n,
            k < m ==> pos <= sps[k as int].start,
            cands.len() == k,
            reps.len() == k,
            repsv.len() == k,
            forall|j: int| 0 <= j < k ==> candidate_ok(#[trigger] cands[j], text@, sps[j]),
            forall|j: int| 0 <= j < k ==> transform.ensures((&cands[j],), #[trigger] reps[j]),
            forall|j: int| 0 <= j < k ==> #[trigger] repsv[j] == reps[j]@,
            forall|rt: Seq<Seq<char>>|
                spec_splice(text@, sps, repsv + rt, 0) == out@ + #[trigger] spec_splice(
                    text@,
                    sps.skip(k as int),
                    rt,
                    pos as int,
                ),
        decreases m - k,
    {
        let rec = spans[k];
        let st = rec.0;
        let en = rec.1;
        proof {
            assert(span_rec_ok(rec, text@, sps[k as int]));
        }
        let raw = text.substring_char(st, en);
        let raw_string: String = raw.to_owned();
        let normalized = normalize_phone_number(raw_string.clone());
        let is_valid = normalized.is_some();
        let cand = ExtractedCandidate {
            raw_substring: raw_string,
            byte_start: rec.2,
            byte_end: rec.3,
            normalized,
            is_valid,
        };
        proof {
            assert(candidate_ok(cand, text@, sps[k as int]));
        }
        let replacement = transform(&cand);
        let ghost before = out@;
        out.append(text.substring_char(pos, st));
        out.append(replacement.as_str());
        proof {
            let ghost old_repsv = repsv;
            let ghost old_pos = pos as int;
            let ghost oldk = k as int;
            cands = cands.push(cand);
            reps = reps.push(replacement);
            repsv = repsv.push(replacement@);
            assert forall|rt: Seq<Seq<char>>|
                spec_splice(text@, sps, repsv + rt, 0) == out@ + #[trigger] spec_splice(
                    text@,
                    sps.skip(oldk + 1),
                    rt,
                    sps[oldk].end,
                ) by {
                let ext = seq![replacement@] + rt;
                assert(spec_splice(text@, sps, old_repsv + ext, 0) == before + spec_splice(
                    text@,
                    sps.skip(oldk),
                    ext,
                    old_pos,
                ));
                assert(repsv + rt =~= old_repsv + ext);
                assert(sps.skip(oldk)[0] == sps[oldk]);
                assert(sps.skip(oldk).drop_first() =~= sps.skip(oldk + 1));
                assert(ext.drop_first() =~= rt);
                assert(spec_splice(text@, sps.skip(oldk), ext, old_pos) == text@.subrange(
                    old_pos,
                    sps[oldk].start,
                ) + replacement@ + spec_splice(text@, sps.skip(oldk + 1), rt, sps[oldk].end));
                assert(before + spec_splice(text@, sps.skip(oldk), ext, old_pos) =~= out@
                    + spec_splice(text@, sps.skip(oldk + 1), rt, sps[oldk].end));
            }
        }
        pos = en;
        k = k + 1;
    }
    let ghost closing = out@;
    out.append(text.substring_char(pos, n));
    proof {
        let rt = Seq::<Seq<char>>::empty();
        assert(spec_splice(text@, sps, repsv + rt, 0) == closing + spec_splice(
            text@,
            sps.skip(m as int),
            rt,
            pos as int,
        ));
        assert(repsv + rt =~= repsv);
        assert(sps.skip(m as int).len() == 0);
        assert(spec_splice(text@, sps.skip(m as int), rt, pos as int) == text@.subrange(
            pos as int,
            n as int,
        ));
        assert(repsv =~= reps.map_values(|x: String| x@));
        assert(out@ =~= spec_splice(text@, sps, repsv, 0));
    }
    out
}

} // verus!
