//! Reading human-readable sizes such as `1.5GB` or `500MB (100%)` as bytes.

use crate::decimal::{lemma_literal_ends, literal_bytes, parse_literal, read_literal_bytes};
use crate::text::{chars_of, copy_range, lemma_trimmed_unchanged, trim_range, trimmed};
use vstd::prelude::*;

verus! {

/// Whether the text `t` ends with the two characters `a`, `b`.
pub open spec fn ends_with_pair(t: Seq<char>, a: char, b: char) -> bool {
    t.len() >= 2 && t[t.len() - 2] == a && t[t.len() - 1] == b
}

/// How many characters the unit at the end of `t` takes: two for `GB`, `MB`,
/// `kB` and `KB`, one for a bare `B`, none where no unit is written.
pub open spec fn unit_length(t: Seq<char>) -> nat {
    if ends_with_pair(t, 'G', 'B') || ends_with_pair(t, 'M', 'B') || ends_with_pair(t, 'k', 'B')
        || ends_with_pair(t, 'K', 'B') {
        2
    } else if t.len() >= 1 && t.last() == 'B' {
        1
    } else {
        0
    }
}

/// The power of ten that the unit at the end of `t` multiplies by: nine for
/// `GB`, six for `MB`, three for `kB` and `KB`, zero otherwise.
pub open spec fn unit_exponent(t: Seq<char>) -> nat {
    if ends_with_pair(t, 'G', 'B') {
        9
    } else if ends_with_pair(t, 'M', 'B') {
        6
    } else if ends_with_pair(t, 'k', 'B') || ends_with_pair(t, 'K', 'B') {
        3
    } else {
        0
    }
}

/// The bytes that a size text stands for. White space around the text and
/// between number and unit is dropped; the number is a decimal literal; the
/// product with the unit is rounded to whole bytes. A text whose number
/// cannot be read stands for zero bytes.
pub open spec fn size_bytes(s: Seq<char>) -> nat {
    let t = trimmed(s);
    literal_bytes(trimmed(t.take(t.len() - unit_length(t))), unit_exponent(t))
}

/// The part of `s` before its first opening parenthesis; the whole of `s`
/// where it has none.
pub open spec fn before_parenthesis(s: Seq<char>) -> Seq<char>
    decreases s.len(),
{
    if s.len() == 0 || s[0] == '(' {
        Seq::empty()
    } else {
        seq![s[0]] + before_parenthesis(s.drop_first())
    }
}

/// The bytes that a reclaimable figure stands for: those of the size written
/// before an annotation in parentheses, such as a percentage.
pub open spec fn reclaimable_bytes(s: Seq<char>) -> nat {
    size_bytes(before_parenthesis(s))
}

/// The power of ten that a unit multiplies by; `None` for a text that is no
/// unit.
pub open spec fn unit_power(unit: Seq<char>) -> Option<nat> {
    if unit == seq!['B'] {
        Some(0)
    } else if unit == seq!['k', 'B'] || unit == seq!['K', 'B'] {
        Some(3)
    } else if unit == seq!['M', 'B'] {
        Some(6)
    } else if unit == seq!['G', 'B'] {
        Some(9)
    } else {
        None
    }
}

/// A number followed by one of the units `B`, `kB`, `KB`, `MB`, `GB` stands
/// for the number's value times the unit's multiplier, rounded to whole
/// bytes.
pub proof fn lemma_size_of_number_and_unit(number: Seq<char>, unit: Seq<char>)
    requires
        parse_literal(number) is Some,
        unit_power(unit) is Some,
    ensures
        size_bytes(number + unit) == literal_bytes(number, unit_power(unit)->0),
{
    let text = number + unit;
    lemma_literal_ends(number);
    assert(text[0] == number[0]);
    assert(text.last() == 'B');
    lemma_trimmed_unchanged(text);
    lemma_trimmed_unchanged(number);
    if unit.len() == 2 {
        assert(text[text.len() - 2] == unit[0]);
    } else {
        assert(text[text.len() - 2] == number.last());
    }
    assert(unit_length(text) == unit.len());
    assert(unit_exponent(text) == unit_power(unit)->0);
    assert(text.take(text.len() - unit.len()) =~= number);
}

/// A number without a unit counts bytes.
pub proof fn lemma_size_of_bare_number(number: Seq<char>)
    requires
        parse_literal(number) is Some,
    ensures
        size_bytes(number) == literal_bytes(number, 0),
{
    lemma_literal_ends(number);
    lemma_trimmed_unchanged(number);
    assert(number.take(number.len() as int) =~= number);
}

/// A text without an opening parenthesis has nothing before it cut off.
pub proof fn lemma_before_parenthesis_whole(s: Seq<char>)
    requires
        !s.contains('('),
    ensures
        before_parenthesis(s) == s,
    decreases s.len(),
{
    if s.len() > 0 {
        assert(s[0] != '(') by {
            assert(s.contains(s[0]));
        }
        assert forall|i: int| 0 <= i < s.drop_first().len() implies s.drop_first()[i] != '(' by {
            assert(s.contains(s[i + 1]));
        }
        assert(!s.drop_first().contains('('));
        lemma_before_parenthesis_whole(s.drop_first());
        assert(seq![s[0]] + s.drop_first() =~= s);
    } else {
        assert(before_parenthesis(s) =~= s);
    }
}

/// A reclaimable figure without an annotation stands for the same bytes as
/// the size it writes.
pub proof fn lemma_reclaimable_without_annotation(s: Seq<char>)
    requires
        !s.contains('('),
    ensures
        reclaimable_bytes(s) == size_bytes(s),
{
    lemma_before_parenthesis_whole(s);
}

/// Reads the size written in `chars[from..to]`.
fn read_size(chars: &Vec<char>, from: usize, to: usize) -> (bytes: u64)
    requires
        from <= to <= chars.len(),
    ensures
        bytes == size_bytes(chars@.subrange(from as int, to as int)),
{
    let (lo, hi) = trim_range(chars, from, to);
    let ghost t = chars@.subrange(lo as int, hi as int);
    let len = hi - lo;
    let last_is_b = len >= 1 && chars[hi - 1] == 'B';
    let prefix = if len >= 2 && last_is_b {
        chars[hi - 2]
    } else {
        ' '
    };
    let (cut, unit): (usize, u8) = if len >= 2 && last_is_b && prefix == 'G' {
        (2, 9)
    } else if len >= 2 && last_is_b && prefix == 'M' {
        (2, 6)
    } else if len >= 2 && last_is_b && (prefix == 'k' || prefix == 'K') {
        (2, 3)
    } else if last_is_b {
        (1, 0)
    } else {
        (0, 0)
    };
    assert(cut == unit_length(t));
    assert(unit == unit_exponent(t));
    let (num_lo, num_hi) = trim_range(chars, lo, hi - cut);
    assert(chars@.subrange(lo as int, hi - cut) =~= t.take(t.len() - cut));
    let number = copy_range(chars, num_lo, num_hi);
    read_literal_bytes(&number, unit)
}

/// Parses a human-readable size with a decimal unit (`B`, `kB` or `KB`, `MB`,
/// `GB`) into bytes. Text that cannot be read gives zero.
pub fn parse_size(s: &str) -> (bytes: u64)
    ensures
        bytes == size_bytes(s@),
{
    let chars = chars_of(s);
    assert(chars@.subrange(0, chars.len() as int) =~= chars@);
    read_size(&chars, 0, chars.len())
}

/// Parses a reclaimable figure such as `1.2GB (50%)`: the size before the
/// parenthesis, the annotation dropped.
pub fn parse_reclaimable(s: &str) -> (bytes: u64)
    ensures
        bytes == reclaimable_bytes(s@),
{
    let chars = chars_of(s);
    let mut end: usize = 0;
    assert(chars@.subrange(0, chars.len() as int) =~= chars@);
    while end < chars.len() && chars[end] != '('
        invariant
            end <= chars.len(),
            before_parenthesis(chars@) == chars@.subrange(0, end as int) + before_parenthesis(
                chars@.subrange(end as int, chars.len() as int),
            ),
        decreases chars.len() - end,
    {
        proof {
            let rest = chars@.subrange(end as int, chars.len() as int);
            assert(rest.drop_first() =~= chars@.subrange(end + 1, chars.len() as int));
            assert(chars@.subrange(0, end as int) + seq![rest[0]] =~= chars@.subrange(
                0,
                end + 1,
            ));
        }
        end = end + 1;
    }
    assert(before_parenthesis(chars@) =~= chars@.subrange(0, end as int));
    read_size(&chars, 0, end)
}

} // verus!
