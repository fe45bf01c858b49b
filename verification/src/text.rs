//! Character-level helpers shared by the parsers.

use vstd::prelude::*;

verus! {

/// The characters of a string, in order.
pub fn chars_of(s: &str) -> (chars: Vec<char>)
    ensures
        chars@ == s@,
{
    let mut chars: Vec<char> = Vec::new();
    let n = s.unicode_len();
    let mut i: usize = 0;
    while i < n
        invariant
            n == s@.len(),
            i <= n,
            chars@ == s@.subrange(0, i as int),
        decreases n - i,
    {
        let c = s.get_char(i);
        chars.push(c);
        i = i + 1;
        assert(chars@ =~= s@.subrange(0, i as int));
    }
    assert(chars@ =~= s@);
    chars
}

/// Appends the characters `s[from..to]` to `out`.
pub fn push_range(out: &mut Vec<char>, s: &Vec<char>, from: usize, to: usize)
    requires
        from <= to <= s.len(),
    ensures
        final(out)@ == old(out)@ + s@.subrange(from as int, to as int),
{
    let mut i = from;
    assert(s@.subrange(from as int, from as int) =~= Seq::<char>::empty());
    assert(out@ + Seq::<char>::empty() =~= out@);
    while i < to
        invariant
            from <= i <= to <= s.len(),
            out@ == old(out)@ + s@.subrange(from as int, i as int),
        decreases to - i,
    {
        out.push(s[i]);
        i = i + 1;
        assert(out@ =~= old(out)@ + s@.subrange(from as int, i as int));
    }
}

/// A copy of the characters `s[from..to]`.
pub fn copy_range(s: &Vec<char>, from: usize, to: usize) -> (part: Vec<char>)
    requires
        from <= to <= s.len(),
    ensures
        part@ == s@.subrange(from as int, to as int),
{
    let mut part: Vec<char> = Vec::new();
    push_range(&mut part, s, from, to);
    assert(part@ =~= s@.subrange(from as int, to as int));
    part
}

/// Whether `c` is white space: the characters with the Unicode property
/// `White_Space`.
pub open spec fn is_space(c: char) -> bool {
    ||| ('\u{0009}' <= c && c <= '\u{000D}')
    ||| c == ' '
    ||| c == '\u{0085}'
    ||| c == '\u{00A0}'
    ||| c == '\u{1680}'
    ||| ('\u{2000}' <= c && c <= '\u{200A}')
    ||| c == '\u{2028}'
    ||| c == '\u{2029}'
    ||| c == '\u{202F}'
    ||| c == '\u{205F}'
    ||| c == '\u{3000}'
}

/// Executable test for white space.
pub fn char_is_space(c: char) -> (b: bool)
    ensures
        b == is_space(c),
{
    (c >= '\u{0009}' && c <= '\u{000D}') || c == ' ' || c == '\u{0085}' || c == '\u{00A0}' || c
        == '\u{1680}' || (c >= '\u{2000}' && c <= '\u{200A}') || c == '\u{2028}' || c
        == '\u{2029}' || c == '\u{202F}' || c == '\u{205F}' || c == '\u{3000}'
}

/// `s` without the white space it begins with.
pub open spec fn skip_leading_space(s: Seq<char>) -> Seq<char>
    decreases s.len(),
{
    if s.len() > 0 && is_space(s[0]) {
        skip_leading_space(s.drop_first())
    } else {
        s
    }
}

/// `s` without the white space it ends with.
pub open spec fn skip_trailing_space(s: Seq<char>) -> Seq<char>
    decreases s.len(),
{
    if s.len() > 0 && is_space(s.last()) {
        skip_trailing_space(s.drop_last())
    } else {
        s
    }
}

/// `s` without the white space at either end.
pub open spec fn trimmed(s: Seq<char>) -> Seq<char> {
    skip_trailing_space(skip_leading_space(s))
}

/// A text that neither begins nor ends with white space is its own trimmed
/// form.
pub proof fn lemma_trimmed_unchanged(s: Seq<char>)
    requires
        s.len() > 0 ==> !is_space(s[0]) && !is_space(s.last()),
    ensures
        trimmed(s) == s,
{
}

/// The bounds of `s[from..to]` without the white space at either end.
pub fn trim_range(s: &Vec<char>, from: usize, to: usize) -> (r: (usize, usize))
    requires
        from <= to <= s.len(),
    ensures
        from <= r.0 <= r.1 <= to,
        s@.subrange(r.0 as int, r.1 as int) == trimmed(s@.subrange(from as int, to as int)),
{
    let mut a = from;
    while a < to && char_is_space(s[a])
        invariant
            from <= a <= to <= s.len(),
            skip_leading_space(s@.subrange(from as int, to as int)) == skip_leading_space(
                s@.subrange(a as int, to as int),
            ),
        decreases to - a,
    {
        assert(s@.subrange(a as int, to as int).drop_first() =~= s@.subrange(a + 1, to as int));
        a = a + 1;
    }
    let mut b = to;
    while a < b && char_is_space(s[b - 1])
        invariant
            a <= b <= to <= s.len(),
            skip_trailing_space(s@.subrange(a as int, to as int)) == skip_trailing_space(
                s@.subrange(a as int, b as int),
            ),
        decreases b - a,
    {
        assert(s@.subrange(a as int, b as int).drop_last() =~= s@.subrange(a as int, b - 1));
        b = b - 1;
    }
    (a, b)
}

/// Whether two strings hold the same characters.
pub fn same_text(a: &str, b: &str) -> (same: bool)
    ensures
        same == (a@ == b@),
{
    let x = chars_of(a);
    let y = chars_of(b);
    if x.len() != y.len() {
        return false;
    }
    let mut i: usize = 0;
    while i < x.len()
        invariant
            i <= x.len() == y.len(),
            x@ == a@,
            y@ == b@,
            x@.subrange(0, i as int) == y@.subrange(0, i as int),
        decreases x.len() - i,
    {
        if x[i] != y[i] {
            assert(a@[i as int] != b@[i as int]);
            return false;
        }
        i = i + 1;
        assert(x@.subrange(0, i as int) =~= x@.subrange(0, i - 1).push(x@[i - 1]));
        assert(y@.subrange(0, i as int) =~= y@.subrange(0, i - 1).push(y@[i - 1]));
    }
    assert(x@ =~= x@.subrange(0, i as int));
    assert(y@ =~= y@.subrange(0, i as int));
    true
}

/// Position of the first line feed in `s`; the length of `s` where it has
/// none.
pub open spec fn first_line_feed(s: Seq<char>) -> nat
    decreases s.len(),
{
    if s.len() == 0 || s[0] == '\n' {
        0
    } else {
        1 + first_line_feed(s.drop_first())
    }
}

/// A line without the carriage return that stood before its line feed.
pub open spec fn without_carriage_return(line: Seq<char>) -> Seq<char> {
    if line.len() > 0 && line.last() == '\r' {
        line.drop_last()
    } else {
        line
    }
}

/// Whether a line holds nothing but white space.
pub open spec fn is_blank(line: Seq<char>) -> bool {
    trimmed(line).len() == 0
}

/// The first line of a text that is not empty: what stands before the first
/// line feed, less a carriage return right before it.
pub open spec fn first_line(s: Seq<char>) -> Seq<char> {
    if first_line_feed(s) >= s.len() {
        s
    } else {
        without_carriage_return(s.take(first_line_feed(s) as int))
    }
}

/// What follows the first line and its line feed.
pub open spec fn after_first_line(s: Seq<char>) -> Seq<char> {
    if first_line_feed(s) >= s.len() {
        Seq::empty()
    } else {
        s.skip(first_line_feed(s) as int + 1)
    }
}

/// The lines of a text that are not blank, in order and without their line
/// endings.
pub open spec fn filled_lines(s: Seq<char>) -> Seq<Seq<char>>
    decreases s.len(),
{
    if s.len() == 0 {
        Seq::empty()
    } else if is_blank(first_line(s)) {
        filled_lines(after_first_line(s))
    } else {
        seq![first_line(s)] + filled_lines(after_first_line(s))
    }
}

/// The texts of a list of strings.
pub open spec fn texts(list: Seq<String>) -> Seq<Seq<char>> {
    list.map_values(|item: String| item@)
}

/// Position of the first line feed at or after `from`; the length of `s`
/// where none follows.
fn find_line_feed(s: &Vec<char>, from: usize) -> (at: usize)
    requires
        from <= s.len(),
    ensures
        from <= at <= s.len(),
        at == from + first_line_feed(s@.skip(from as int)),
{
    let mut at = from;
    while at < s.len() && s[at] != '\n'
        invariant
            from <= at <= s.len(),
            first_line_feed(s@.skip(from as int)) == (at - from) + first_line_feed(
                s@.skip(at as int),
            ),
        decreases s.len() - at,
    {
        assert(s@.skip(at as int).drop_first() =~= s@.skip(at + 1));
        at = at + 1;
    }
    at
}

/// The lines of `text` that are not blank.
pub fn lines_with_content(text: &str) -> (lines: Vec<String>)
    ensures
        texts(lines@) == filled_lines(text@),
{
    let chars = chars_of(text);
    let mut lines: Vec<String> = Vec::new();
    let mut start: usize = 0;
    assert(texts(lines@) =~= Seq::empty());
    assert(chars@.skip(0) =~= chars@);
    while start < chars.len()
        invariant
            start <= chars.len(),
            chars@ == text@,
            filled_lines(text@) == texts(lines@) + filled_lines(chars@.skip(start as int)),
        decreases chars.len() - start,
    {
        let ghost rest = chars@.skip(start as int);
        let feed = find_line_feed(&chars, start);
        let end = if feed < chars.len() && feed > start && chars[feed - 1] == '\r' {
            feed - 1
        } else {
            feed
        };
        assert(chars@.subrange(start as int, end as int) =~= first_line(rest)) by {
            assert(rest.take(feed - start) =~= chars@.subrange(start as int, feed as int));
            if feed > start {
                assert(rest.take(feed - start).drop_last() =~= chars@.subrange(
                    start as int,
                    feed - 1,
                ));
            }
        }
        let next = if feed < chars.len() {
            feed + 1
        } else {
            feed
        };
        assert(chars@.skip(next as int) =~= after_first_line(rest));
        let (a, b) = trim_range(&chars, start, end);
        if a < b {
            let line = text.substring_char(start, end);
            let ghost before = lines@;
            lines.push(String::from_str(line));
            assert(texts(lines@) =~= texts(before) + seq![first_line(rest)]);
        }
        start = next;
    }
    assert(filled_lines(chars@.skip(start as int)) =~= Seq::empty());
    lines
}

} // verus!
