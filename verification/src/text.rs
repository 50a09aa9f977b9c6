//! Reading text: white space, lines and decimal integers.
//!
//! The specification functions describe text as a sequence of characters;
//! the executable functions work on slices of characters and are proved to
//! compute them.

use vstd::prelude::*;
use vstd::slice::slice_subrange;

verus! {

broadcast use vstd::string::group_string_axioms;

/// `String::push` of the standard library. The contract claims that the
/// string holds afterwards what it held before, followed by the character.
/// This is taken on trust.
pub assume_specification[ String::push ](s: &mut String, c: char)
    ensures
        final(s)@ == old(s)@.push(c),
;

/// The characters with the Unicode property `White_Space`.
pub open spec fn is_space(c: char) -> bool {
    ||| '\t' <= c <= '\r'
    ||| c == ' '
    ||| c == '\u{85}'
    ||| c == '\u{A0}'
    ||| c == '\u{1680}'
    ||| '\u{2000}' <= c <= '\u{200A}'
    ||| c == '\u{2028}'
    ||| c == '\u{2029}'
    ||| c == '\u{202F}'
    ||| c == '\u{205F}'
    ||| c == '\u{3000}'
}

/// How many white-space characters `s` begins with.
pub open spec fn leading_spaces(s: Seq<char>) -> nat
    decreases s.len(),
{
    if s.len() > 0 && is_space(s[0]) {
        1 + leading_spaces(s.drop_first())
    } else {
        0
    }
}

/// How many white-space characters `s` ends with.
pub open spec fn trailing_spaces(s: Seq<char>) -> nat
    decreases s.len(),
{
    if s.len() > 0 && is_space(s.last()) {
        1 + trailing_spaces(s.drop_last())
    } else {
        0
    }
}

/// `s` without the white space at its start.
pub open spec fn trim_start(s: Seq<char>) -> Seq<char> {
    s.skip(leading_spaces(s) as int)
}

/// `s` without the white space at its end.
pub open spec fn trim_end(s: Seq<char>) -> Seq<char> {
    s.take(s.len() - trailing_spaces(s))
}

/// `s` without the white space at either end.
pub open spec fn trim(s: Seq<char>) -> Seq<char> {
    trim_end(trim_start(s))
}

/// The position of the first `c` in `s`, or the length of `s` if it has none.
pub open spec fn first_index(s: Seq<char>, c: char) -> nat
    decreases s.len(),
{
    if s.len() == 0 || s[0] == c {
        0
    } else {
        1 + first_index(s.drop_first(), c)
    }
}

/// A line without the carriage return that may end it.
pub open spec fn strip_carriage_return(line: Seq<char>) -> Seq<char> {
    if line.len() > 0 && line.last() == '\r' {
        line.drop_last()
    } else {
        line
    }
}

/// The lines of `s`. A line ends at a line feed, or at a carriage return
/// directly followed by one; the last line may do without. Neither
/// character belongs to the line.
pub open spec fn lines(s: Seq<char>) -> Seq<Seq<char>>
    decreases s.len(),
{
    if s.len() == 0 {
        Seq::empty()
    } else {
        let i = first_index(s, '\n') as int;
        if i >= s.len() {
            seq![s]
        } else {
            seq![strip_carriage_return(s.take(i))] + lines(s.skip(i + 1))
        }
    }
}

/// A text has no more lines than characters, and no line is longer than the text.
pub proof fn lemma_lines_are_short(s: Seq<char>)
    ensures
        lines(s).len() <= s.len(),
        forall|i: int| 0 <= i < lines(s).len() ==> (#[trigger] lines(s)[i]).len() <= s.len(),
    decreases s.len(),
{
    if s.len() > 0 {
        let i = first_index(s, '\n') as int;
        lemma_first_index_in_range(s, '\n');
        if i < s.len() {
            let rest = s.skip(i + 1);
            lemma_lines_are_short(rest);
            let head = seq![strip_carriage_return(s.take(i))];
            assert forall|j: int| 0 <= j < lines(s).len() implies (#[trigger] lines(s)[j]).len()
                <= s.len() by {
                if j > 0 {
                    assert(lines(s)[j] == lines(rest)[j - 1]);
                } else {
                    assert(lines(s)[j] == head[0]);
                }
            }
        }
    }
}

/// The first occurrence of a character lies within the text or at its end.
pub proof fn lemma_first_index_in_range(s: Seq<char>, c: char)
    ensures
        first_index(s, c) <= s.len(),
        first_index(s, c) < s.len() ==> s[first_index(s, c) as int] == c,
        forall|i: int| 0 <= i < first_index(s, c) ==> s[i] != c,
    decreases s.len(),
{
    if s.len() > 0 && s[0] != c {
        let rest = s.drop_first();
        lemma_first_index_in_range(rest, c);
        assert forall|i: int| 0 <= i < first_index(s, c) implies s[i] != c by {
            if i > 0 {
                assert(s[i] == rest[i - 1]);
            }
        }
    }
}

/// The first occurrence of `c` is at `i` if `c` stands there and nowhere before.
pub proof fn lemma_first_index_is(s: Seq<char>, c: char, i: int)
    requires
        0 <= i <= s.len(),
        forall|j: int| 0 <= j < i ==> s[j] != c,
        i < s.len() ==> s[i] == c,
    ensures
        first_index(s, c) == i,
{
    lemma_first_index_in_range(s, c);
    let f = first_index(s, c) as int;
    if f < i {
        assert(s[f] == c);
    } else if f > i {
        assert(s[i] == c);
    }
}

/// Trimming leaves a text alone that neither begins nor ends with white space.
pub proof fn lemma_trim_keeps(s: Seq<char>)
    requires
        s.len() > 0 ==> !is_space(s[0]) && !is_space(s.last()),
    ensures
        trim(s) == s,
{
    assert(trim_start(s) =~= s);
    assert(trim_end(s) =~= s);
}

/// An ASCII decimal digit.
pub open spec fn is_digit(c: char) -> bool {
    '0' <= c <= '9'
}

/// Whether `s` holds decimal digits only.
pub open spec fn all_digits(s: Seq<char>) -> bool {
    forall|i: int| 0 <= i < s.len() ==> is_digit(#[trigger] s[i])
}

/// The number that a sequence of decimal digits writes.
pub open spec fn digits_value(s: Seq<char>) -> int
    decreases s.len(),
{
    if s.len() == 0 {
        0
    } else {
        digits_value(s.drop_last()) * 10 + (s.last() as int - '0' as int)
    }
}

/// The integer that `s` writes in decimal: an optional sign, then at least
/// one digit and nothing else.
pub open spec fn parse_int(s: Seq<char>) -> Option<int> {
    let signed = s.len() > 0 && (s[0] == '-' || s[0] == '+');
    let digits = if signed { s.drop_first() } else { s };
    if digits.len() == 0 || !all_digits(digits) {
        None
    } else if signed && s[0] == '-' {
        Some(-digits_value(digits))
    } else {
        Some(digits_value(digits))
    }
}

/// The 64-bit integer that `s` writes in decimal, if it writes one.
pub open spec fn parse_i64(s: Seq<char>) -> Option<i64> {
    match parse_int(s) {
        Some(v) if i64::MIN <= v <= i64::MAX => Some(v as i64),
        _ => None,
    }
}

/// The unsigned 64-bit integer that `s` writes in decimal, if it writes
/// one: a plus sign may stand before the digits, a minus sign may not.
pub open spec fn parse_u64(s: Seq<char>) -> Option<u64> {
    let digits = if s.len() > 0 && s[0] == '+' { s.drop_first() } else { s };
    if digits.len() == 0 || !all_digits(digits) || digits_value(digits) > u64::MAX {
        None
    } else {
        Some(digits_value(digits) as u64)
    }
}

/// The character that `s` consists of, if it is one character long.
pub open spec fn parse_char(s: Seq<char>) -> Option<char> {
    if s.len() == 1 {
        Some(s[0])
    } else {
        None
    }
}

/// The digit that writes `d`, a number below ten.
pub open spec fn digit_char(d: nat) -> char {
    (('0' as nat) + d) as char
}

/// The digits that write `n` in decimal, without leading zeros.
pub open spec fn decimal(n: nat) -> Seq<char>
    decreases n,
{
    if n < 10 {
        seq![digit_char(n)]
    } else {
        decimal(n / 10).push(digit_char(n % 10))
    }
}

/// The text that writes `v` in decimal, with a minus sign if it is negative.
pub open spec fn show_int(v: int) -> Seq<char> {
    if v < 0 {
        seq!['-'] + decimal((-v) as nat)
    } else {
        decimal(v as nat)
    }
}

/// The decimal digits of a number are digits, and they write that number.
pub proof fn lemma_decimal(n: nat)
    ensures
        decimal(n).len() >= 1,
        all_digits(decimal(n)),
        digits_value(decimal(n)) == n,
    decreases n,
{
    let s = decimal(n);
    assert(digit_char(n % 10) as int == '0' as int + n % 10);
    if n >= 10 {
        let init = decimal(n / 10);
        lemma_decimal(n / 10);
        assert(s.drop_last() =~= init);
        assert(s.last() == digit_char(n % 10));
        assert forall|i: int| 0 <= i < s.len() implies is_digit(#[trigger] s[i]) by {
            if i < init.len() {
                assert(s[i] == init[i]);
            }
        }
    } else {
        assert(s.drop_last() =~= Seq::<char>::empty());
        assert(digits_value(s.drop_last()) == 0);
        assert(s.last() == digit_char(n));
    }
}

/// The text that writes a 64-bit integer reads back as that integer; it is
/// not empty and holds neither white space nor a comma.
pub proof fn lemma_show_int_reads_back(v: i64)
    ensures
        parse_i64(show_int(v as int)) == Some(v),
        show_int(v as int).len() >= 1,
        forall|i: int|
            0 <= i < show_int(v as int).len() ==> !is_space(#[trigger] show_int(v as int)[i])
                && show_int(v as int)[i] != ',',
{
    let s = show_int(v as int);
    if v < 0 {
        let digits = decimal((-v) as nat);
        lemma_decimal((-v) as nat);
        assert(s.drop_first() =~= digits);
        assert(s[0] == '-');
        assert forall|i: int| 0 <= i < s.len() implies !is_space(#[trigger] s[i]) && s[i]
            != ',' by {
            if i > 0 {
                assert(s[i] == digits[i - 1]);
                assert(is_digit(digits[i - 1]));
            }
        }
    } else {
        lemma_decimal(v as nat);
        assert(is_digit(s[0]));
        assert forall|i: int| 0 <= i < s.len() implies !is_space(#[trigger] s[i]) && s[i]
            != ',' by {
            assert(is_digit(s[i]));
        }
    }
}

/// What a sequence of digits writes is never negative, and each further
/// digit can only make it larger.
pub proof fn lemma_digits_value_grows(s: Seq<char>, i: int)
    requires
        all_digits(s),
        0 <= i <= s.len(),
    ensures
        0 <= digits_value(s.take(i)) <= digits_value(s),
    decreases s.len() - i,
{
    if i == s.len() {
        assert(s.take(i) =~= s);
        lemma_digits_value_nonnegative(s);
    } else {
        lemma_digits_value_grows(s, i + 1);
        assert(s.take(i + 1).drop_last() =~= s.take(i));
        assert(is_digit(s[i]));
        lemma_digits_value_nonnegative(s.take(i));
    }
}

/// What a sequence of digits writes is never negative.
proof fn lemma_digits_value_nonnegative(s: Seq<char>)
    requires
        all_digits(s),
    ensures
        0 <= digits_value(s),
    decreases s.len(),
{
    if s.len() > 0 {
        assert(is_digit(s.last()));
        lemma_digits_value_nonnegative(s.drop_last());
    }
}

/// The characters of a string.
pub fn chars_of(s: &str) -> (out: Vec<char>)
    ensures
        out@ == s@,
{
    let mut out: Vec<char> = Vec::new();
    for c in it: s.chars()
        invariant
            it.seq() == s@,
            out@ == s@.take(it.index()),
    {
        out.push(c);
    }
    out
}

/// Whether two pieces of text hold the same characters.
pub fn same_text(a: &[char], b: &[char]) -> (out: bool)
    ensures
        out == (a@ == b@),
{
    if a.len() != b.len() {
        return false;
    }
    let mut i: usize = 0;
    while i < a.len()
        invariant
            a@.len() == b@.len(),
            i <= a@.len(),
            a@.take(i as int) == b@.take(i as int),
        decreases a@.len() - i,
    {
        if a[i] != b[i] {
            return false;
        }
        assert(a@.take(i + 1) =~= a@.take(i as int).push(a@[i as int]));
        assert(b@.take(i + 1) =~= b@.take(i as int).push(b@[i as int]));
        i += 1;
    }
    assert(a@.take(i as int) =~= a@ && b@.take(i as int) =~= b@);
    true
}

/// Whether `c` is white space.
pub fn is_whitespace(c: char) -> (out: bool)
    ensures
        out == is_space(c),
{
    ('\t' <= c && c <= '\r') || c == ' ' || c == '\u{85}' || c == '\u{A0}' || c == '\u{1680}' || (
    '\u{2000}' <= c && c <= '\u{200A}') || c == '\u{2028}' || c == '\u{2029}' || c == '\u{202F}'
        || c == '\u{205F}' || c == '\u{3000}'
}

/// The text without the white space at either end.
pub fn trimmed(s: &[char]) -> (out: &[char])
    ensures
        out@ == trim(s@),
        out@.len() <= s@.len(),
{
    let mut lo: usize = 0;
    assert(s@.skip(0) =~= s@);
    while lo < s.len() && is_whitespace(s[lo])
        invariant
            lo <= s@.len(),
            leading_spaces(s@) == lo + leading_spaces(s@.skip(lo as int)),
        decreases s@.len() - lo,
    {
        assert(s@.skip(lo as int).drop_first() =~= s@.skip(lo + 1));
        lo += 1;
    }
    assert(leading_spaces(s@) == lo);
    let ghost rest = s@.skip(lo as int);
    let mut hi: usize = s.len();
    assert(rest.take(hi - lo) =~= rest);
    while hi > lo && is_whitespace(s[hi - 1])
        invariant
            lo <= hi <= s@.len(),
            rest == s@.skip(lo as int),
            trailing_spaces(rest) == (s@.len() - hi) + trailing_spaces(rest.take(hi - lo)),
        decreases hi,
    {
        assert(rest.take(hi - lo).drop_last() =~= rest.take(hi - lo - 1));
        hi -= 1;
    }
    assert(trailing_spaces(rest) == s@.len() - hi) by {
        if hi > lo {
            assert(rest.take(hi - lo).last() == s@[hi - 1]);
        }
    }
    let out = slice_subrange(s, lo, hi);
    assert(out@ =~= trim(s@));
    out
}

/// The position of the first `c` in the text, or its length if it has none.
pub fn position(s: &[char], c: char) -> (out: usize)
    ensures
        out == first_index(s@, c),
        out <= s@.len(),
        out < s@.len() ==> s@[out as int] == c,
{
    let mut i: usize = 0;
    assert(s@.skip(0) =~= s@);
    while i < s.len() && s[i] != c
        invariant
            i <= s@.len(),
            first_index(s@, c) == i + first_index(s@.skip(i as int), c),
        decreases s@.len() - i,
    {
        assert(s@.skip(i as int).drop_first() =~= s@.skip(i + 1));
        i += 1;
    }
    i
}

/// The lines of the text, in order.
pub fn split_lines<'a>(s: &'a [char]) -> (out: Vec<&'a [char]>)
    ensures
        out@.len() == lines(s@).len(),
        forall|i: int| 0 <= i < out@.len() ==> (#[trigger] out@[i])@ == lines(s@)[i],
{
    let mut out: Vec<&'a [char]> = Vec::new();
    let mut pos: usize = 0;
    assert(s@.skip(0) =~= s@);
    while pos < s.len()
        invariant
            pos <= s@.len(),
            lines(s@).len() == out@.len() + lines(s@.skip(pos as int)).len(),
            forall|i: int| 0 <= i < out@.len() ==> (#[trigger] out@[i])@ == lines(s@)[i],
            forall|i: int|
                0 <= i < lines(s@.skip(pos as int)).len() ==> lines(s@)[out@.len() + i] == lines(
                    s@.skip(pos as int),
                )[i],
        decreases s@.len() - pos,
    {
        let rest = slice_subrange(s, pos, s.len());
        let ghost before = out@;
        let ghost tail = lines(rest@);
        assert(rest@ =~= s@.skip(pos as int));
        let i = position(rest, '\n');
        if i == rest.len() {
            out.push(rest);
            pos = s.len();
            assert(tail =~= seq![rest@]);
            assert(lines(s@)[before.len() as int] == tail[0]);
        } else {
            let line = slice_subrange(rest, 0, i);
            let line = if i > 0 && line[i - 1] == '\r' {
                slice_subrange(line, 0, i - 1)
            } else {
                line
            };
            assert(line@ =~= strip_carriage_return(rest@.take(i as int)));
            out.push(line);
            assert(rest@.skip(i + 1) =~= s@.skip(pos + i + 1));
            pos = pos + i + 1;
            assert(tail =~= seq![line@] + lines(s@.skip(pos as int)));
            assert(lines(s@)[before.len() as int] == tail[0]);
            assert forall|j: int| 0 <= j < lines(s@.skip(pos as int)).len() implies lines(s@)[out@.len()
                + j] == lines(s@.skip(pos as int))[j] by {
                assert(lines(s@)[before.len() + (j + 1)] == tail[j + 1]);
            }
        }
    }
    out
}

/// Appends the text that writes `v` in decimal to `out`.
pub fn push_int(out: &mut String, v: i64)
    ensures
        final(out)@ == old(out)@ + show_int(v as int),
{
    if v < 0 {
        out.push('-');
    }
    let number: u64 = if v < 0 { (-(v as i128)) as u64 } else { v as u64 };
    let ghost start = out@;
    let mut digits: Vec<char> = Vec::new();
    digits.push((48u8 + (number % 10) as u8) as char);
    let mut rest: u64 = number / 10;
    proof {
        assert(digits@.reverse() =~= seq![digit_char((number % 10) as nat)]);
        assert(decimal(number as nat) =~= (if rest > 0 {
            decimal(rest as nat)
        } else {
            Seq::<char>::empty()
        }) + digits@.reverse());
    }
    while rest > 0
        invariant
            decimal(number as nat) == (if rest > 0 {
                decimal(rest as nat)
            } else {
                Seq::<char>::empty()
            }) + digits@.reverse(),
        decreases rest,
    {
        let ghost before = digits@;
        let d = (48u8 + (rest % 10) as u8) as char;
        digits.push(d);
        proof {
            assert(digits@.reverse() =~= seq![d] + before.reverse());
            assert(decimal(rest as nat) =~= (if rest / 10 > 0 {
                decimal((rest / 10) as nat)
            } else {
                Seq::<char>::empty()
            }) + seq![d]);
            assert(decimal(number as nat) =~= (if rest / 10 > 0 {
                decimal((rest / 10) as nat)
            } else {
                Seq::<char>::empty()
            }) + digits@.reverse());
        }
        rest = rest / 10;
    }
    let mut k: usize = digits.len();
    proof {
        assert(digits@.reverse() =~= decimal(number as nat));
        assert(start + digits@.reverse().take(0) =~= start);
    }
    while k > 0
        invariant
            k <= digits@.len(),
            out@ == start + digits@.reverse().take(digits@.len() - k),
        decreases k,
    {
        k -= 1;
        out.push(digits[k]);
        proof {
            let shown = digits@.reverse();
            assert(shown.take(digits@.len() - k - 1).push(digits@[k as int]) =~= shown.take(
                digits@.len() - k,
            ));
        }
    }
    proof {
        assert(digits@.reverse().take(digits@.len() as int) =~= digits@.reverse());
        assert(out@ =~= old(out)@ + show_int(v as int));
    }
}

/// Reads the number that a run of decimal digits writes, if `s` is such a
/// run and the number is `limit` at most. An empty run writes zero.
pub fn read_digits(s: &[char], limit: u64) -> (out: Option<u64>)
    ensures
        match out {
            Some(value) => all_digits(s@) && value == digits_value(s@) && value <= limit,
            None => !all_digits(s@) || digits_value(s@) > limit,
        },
{
    let mut acc: u128 = 0;
    let mut i: usize = 0;
    proof {
        assert(s@.take(0) =~= Seq::<char>::empty());
    }
    while i < s.len()
        invariant
            i <= s@.len(),
            all_digits(s@.take(i as int)),
            acc == digits_value(s@.take(i as int)),
            acc <= limit,
        decreases s@.len() - i,
    {
        let c = s[i];
        if !('0' <= c && c <= '9') {
            return None;
        }
        let d: u128 = (c as u32 - '0' as u32) as u128;
        proof {
            assert(s@.take(i + 1).drop_last() =~= s@.take(i as int));
            assert forall|j: int| 0 <= j < i + 1 implies is_digit(#[trigger] s@.take(i + 1)[j]) by {
                if j < i {
                    assert(s@.take(i as int)[j] == s@[j]);
                }
            }
        }
        acc = acc * 10 + d;
        i += 1;
        if acc > limit as u128 {
            proof {
                if all_digits(s@) {
                    lemma_digits_value_grows(s@, i as int);
                }
            }
            return None;
        }
    }
    proof {
        assert(s@.take(i as int) =~= s@);
    }
    Some(acc as u64)
}

/// Reads a 64-bit integer written in decimal.
pub fn parse_decimal(s: &[char]) -> (out: Option<i64>)
    ensures
        out == parse_i64(s@),
{
    let n = s.len();
    let signed = n > 0 && (s[0] == '-' || s[0] == '+');
    let negative = signed && s[0] == '-';
    let digits = slice_subrange(s, if signed { 1 } else { 0 }, n);
    proof {
        assert(digits@ =~= if signed { s@.drop_first() } else { s@ });
    }
    if digits.len() == 0 {
        return None;
    }
    match read_digits(digits, 0x8000_0000_0000_0000) {
        None => None,
        Some(value) => if negative {
            Some((-(value as i128)) as i64)
        } else if value == 0x8000_0000_0000_0000 {
            None
        } else {
            Some(value as i64)
        },
    }
}

/// Reads an unsigned 64-bit integer written in decimal.
pub fn parse_unsigned(s: &[char]) -> (out: Option<u64>)
    ensures
        out == parse_u64(s@),
{
    let n = s.len();
    let signed = n > 0 && s[0] == '+';
    let digits = slice_subrange(s, if signed { 1 } else { 0 }, n);
    proof {
        assert(digits@ =~= if signed { s@.drop_first() } else { s@ });
    }
    if digits.len() == 0 {
        return None;
    }
    read_digits(digits, u64::MAX)
}

/// Reads a text that is a single character.
pub fn parse_single(s: &[char]) -> (out: Option<char>)
    ensures
        out == parse_char(s@),
{
    if s.len() == 1 {
        Some(s[0])
    } else {
        None
    }
}

} // verus!
