//! Decimal digits and powers of ten.

use crate::text::{copy_range, push_range};
use vstd::prelude::*;

verus! {

/// Whether `c` is one of the ten ASCII digits.
pub open spec fn is_digit(c: char) -> bool {
    '0' <= c && c <= '9'
}

/// The value of a digit character; zero for any other character.
pub open spec fn digit_value(c: char) -> nat {
    if is_digit(c) {
        (c as int - '0' as int) as nat
    } else {
        0
    }
}

/// Ten to the power `n`.
pub open spec fn pow10(n: nat) -> nat
    decreases n,
{
    if n == 0 {
        1
    } else {
        10 * pow10((n - 1) as nat)
    }
}

/// The number that a sequence of digits writes, most significant digit first.
pub open spec fn digits_value(d: Seq<char>) -> nat
    decreases d.len(),
{
    if d.len() == 0 {
        0
    } else {
        digits_value(d.drop_last()) * 10 + digit_value(d.last())
    }
}

/// How many digits stand in `s` from position `from` on, without a gap.
pub open spec fn digit_run(s: Seq<char>, from: int) -> nat
    decreases s.len() - from,
{
    if 0 <= from < s.len() && is_digit(s[from]) {
        1 + digit_run(s, from + 1)
    } else {
        0
    }
}

/// Executable test for a digit.
pub fn char_is_digit(c: char) -> (b: bool)
    ensures
        b == is_digit(c),
{
    c >= '0' && c <= '9'
}

/// Executable value of a digit character.
pub fn char_digit_value(c: char) -> (v: u8)
    ensures
        v == digit_value(c),
        v <= 9,
{
    if char_is_digit(c) {
        ((c as u32) - ('0' as u32)) as u8
    } else {
        0
    }
}

/// Half-up rounding of the quotient `a / b`.
pub open spec fn round_div(a: nat, b: nat) -> nat {
    ((2 * a + b) / (2 * b)) as nat
}

/// `mantissa` times ten to the power `shift`, rounded to the nearest whole
/// number where `shift` is negative, a half rounding up.
pub open spec fn scaled(mantissa: nat, shift: int) -> nat {
    if shift >= 0 {
        mantissa * pow10(shift as nat)
    } else {
        round_div(mantissa, pow10((-shift) as nat))
    }
}

/// Powers of ten are positive.
pub proof fn lemma_pow10_positive(n: nat)
    ensures
        pow10(n) >= 1,
    decreases n,
{
    if n > 0 {
        lemma_pow10_positive((n - 1) as nat);
    }
}

/// Powers of ten grow with the exponent.
pub proof fn lemma_pow10_monotonic(a: nat, b: nat)
    requires
        a <= b,
    ensures
        pow10(a) <= pow10(b),
    decreases b,
{
    if a < b {
        lemma_pow10_monotonic(a, (b - 1) as nat);
        lemma_pow10_positive((b - 1) as nat);
    }
}

/// Ten to the twentieth power exceeds every `u64`.
pub proof fn lemma_pow10_20()
    ensures
        pow10(20) == 100_000_000_000_000_000_000nat,
        pow10(20) > u64::MAX,
{
    reveal_with_fuel(pow10, 21);
}

/// A run of `n` digits writes a number below ten to the `n`.
pub proof fn lemma_digits_value_bound(d: Seq<char>)
    ensures
        digits_value(d) < pow10(d.len()),
    decreases d.len(),
{
    if d.len() > 0 {
        lemma_digits_value_bound(d.drop_last());
    }
}

/// Splitting a digit sequence at `keep`: the head counts for as many powers of
/// ten as the tail has digits.
pub proof fn lemma_digits_value_split(d: Seq<char>, keep: int)
    requires
        0 <= keep <= d.len(),
    ensures
        digits_value(d) == digits_value(d.take(keep)) * pow10((d.len() - keep) as nat)
            + digits_value(d.skip(keep)),
    decreases d.len(),
{
    if keep == d.len() {
        assert(d.take(keep) =~= d);
        assert(d.skip(keep).len() == 0);
        assert(pow10(0) == 1);
        assert(digits_value(d) * 1 == digits_value(d)) by (nonlinear_arith);
    } else {
        let front = d.drop_last();
        let tail = d.skip(keep);
        lemma_digits_value_split(front, keep);
        assert(front.take(keep) =~= d.take(keep));
        assert(front.skip(keep) =~= tail.drop_last());
        assert(tail.last() == d.last());
        let head = digits_value(d.take(keep));
        let rest = digits_value(front.skip(keep));
        let p = pow10((front.len() - keep) as nat);
        assert(pow10((d.len() - keep) as nat) == 10 * p);
        assert(digits_value(front) == head * p + rest);
        assert(digits_value(d) == digits_value(front) * 10 + digit_value(d.last()));
        assert(digits_value(tail) == rest * 10 + digit_value(d.last()));
        assert((head * p + rest) * 10 == head * (10 * p) + rest * 10) by (nonlinear_arith);
    }
}

/// Rounding a quotient by a power of ten looks only at the first digit that
/// is cut off: with `a == high * 10^q + r * 10^(q-1) + low`, the digit `r`
/// decides.
pub proof fn lemma_round_div_digit(high: nat, r: nat, low: nat, q: nat)
    requires
        q >= 1,
        r <= 9,
        low < pow10((q - 1) as nat),
    ensures
        round_div(high * pow10(q) + r * pow10((q - 1) as nat) + low, pow10(q)) == high + if r
            >= 5 {
            1nat
        } else {
            0nat
        },
{
    let t = pow10((q - 1) as nat);
    lemma_pow10_positive((q - 1) as nat);
    assert(pow10(q) == 10 * t);
    let a = high * (10 * t) + r * t + low;
    let up: nat = if r >= 5 {
        1
    } else {
        0
    };
    assert((2 * a + 10 * t) / (2 * (10 * t)) == high + up) by (nonlinear_arith)
        requires
            t >= 1,
            r <= 9,
            low < t,
            a == high * (10 * t) + r * t + low,
            up == (if r >= 5 {
                1nat
            } else {
                0nat
            }),
    {
        let rem = 2 * (r * t) + 2 * low + 10 * t - up * (20 * t);
        assert(2 * a + 10 * t == (high + up) * (20 * t) + rem);
        assert(0 <= rem < 20 * t);
        vstd::arithmetic::div_mod::lemma_fundamental_div_mod_converse(
            (2 * a + 10 * t) as int,
            (20 * t) as int,
            (high + up) as int,
            rem as int,
        );
    }
}

/// A number below half of `b` rounds to zero when divided by `b`.
pub proof fn lemma_round_div_small(a: nat, b: nat)
    requires
        2 * a < b,
    ensures
        round_div(a, b) == 0,
{
    assert((2 * a + b) / (2 * b) == 0) by (nonlinear_arith)
        requires
            2 * a < b,
    {
        vstd::arithmetic::div_mod::lemma_fundamental_div_mod_converse(
            (2 * a + b) as int,
            (2 * b) as int,
            0,
            (2 * a + b) as int,
        );
    }
}

/// The smaller of two numbers.
pub open spec fn min_nat(a: nat, b: nat) -> nat {
    if a <= b {
        a
    } else {
        b
    }
}

/// One more than the largest `u64`: where a running value reaches it, the
/// result no longer fits.
pub const OVERFLOW: u128 = 0x1_0000_0000_0000_0000u128;

/// The number written by the first `keep` digits of `d`, held at `cap` where
/// it would go beyond.
pub fn capped_value(d: &Vec<char>, keep: usize, cap: u128) -> (v: u128)
    requires
        keep <= d.len(),
        cap <= 0x100_0000_0000_0000_0000_0000_0000u128,
    ensures
        v == min_nat(digits_value(d@.take(keep as int)), cap as nat),
{
    let mut v: u128 = 0;
    let mut i: usize = 0;
    assert(d@.take(0).len() == 0);
    while i < keep
        invariant
            i <= keep <= d.len(),
            cap <= 0x100_0000_0000_0000_0000_0000_0000u128,
            v == min_nat(digits_value(d@.take(i as int)), cap as nat),
        decreases keep - i,
    {
        let digit = char_digit_value(d[i]);
        assert(d@.take(i + 1).drop_last() =~= d@.take(i as int));
        assert(d@.take(i + 1).last() == d@[i as int]);
        let next = v * 10 + digit as u128;
        v = if next > cap {
            cap
        } else {
            next
        };
        i = i + 1;
    }
    v
}

/// Exclusive end of the run of digits that starts at `from`.
pub fn scan_digits(s: &Vec<char>, from: usize) -> (end: usize)
    requires
        from <= s.len(),
    ensures
        end == from + digit_run(s@, from as int),
        from <= end <= s.len(),
        digit_run(s@, end as int) == 0,
        forall|i: int| from <= i < end ==> is_digit(#[trigger] s@[i]),
{
    let mut end = from;
    while end < s.len() && char_is_digit(s[end])
        invariant
            from <= end <= s.len(),
            digit_run(s@, from as int) == (end - from) + digit_run(s@, end as int),
            forall|i: int| from <= i < end ==> is_digit(#[trigger] s@[i]),
        decreases s.len() - end,
    {
        end = end + 1;
    }
    end
}

/// What a byte count keeps of a number: the number itself, or the largest
/// `u64` where it is larger.
pub open spec fn clamp_u64(n: nat) -> nat {
    min_nat(n, u64::MAX as nat)
}

/// A product with a positive power of ten is no smaller than its factor.
pub proof fn lemma_scale_up_grows(m: nat, n: nat)
    ensures
        m * pow10(n) >= m,
        m == 0 ==> m * pow10(n) == 0,
{
    lemma_pow10_positive(n);
    assert(m * pow10(n) >= m) by (nonlinear_arith)
        requires
            pow10(n) >= 1,
    ;
    assert(m == 0 ==> m * pow10(n) == 0) by (nonlinear_arith);
}

/// Once the shift is twenty or more, only whether the mantissa is zero
/// matters to a byte count; once it is below minus the number of digits, the
/// count is zero.
pub proof fn lemma_scaled_far(d: Seq<char>, shift: int)
    ensures
        shift >= 20 ==> clamp_u64(scaled(digits_value(d), shift)) == if digits_value(d) == 0 {
            0nat
        } else {
            u64::MAX as nat
        },
        shift < -d.len() ==> scaled(digits_value(d), shift) == 0,
{
    let m = digits_value(d);
    if shift >= 20 {
        lemma_pow10_monotonic(20, shift as nat);
        lemma_pow10_20();
        let p = pow10(shift as nat);
        assert(m == 0 ==> m * p == 0) by (nonlinear_arith);
        assert(m >= 1 ==> m * p >= p) by (nonlinear_arith);
    }
    if shift < -d.len() {
        let q = (-shift) as nat;
        lemma_digits_value_bound(d);
        lemma_pow10_monotonic(d.len(), (q - 1) as nat);
        assert(pow10(q) == 10 * pow10((q - 1) as nat));
        lemma_round_div_small(m, pow10(q));
    }
}

/// Holding a factor at a bound before multiplying changes nothing below the
/// bound.
pub proof fn lemma_capped_product(m: nat, cap: nat, p: nat)
    requires
        p >= 1,
    ensures
        min_nat(min_nat(m, cap) * p, cap) == min_nat(m * p, cap),
{
    if m > cap {
        assert(cap * p >= cap) by (nonlinear_arith)
            requires
                p >= 1,
        ;
        assert(m * p >= cap) by (nonlinear_arith)
            requires
                p >= 1,
                m > cap,
        ;
    }
}

/// The byte count of the number that the digits `d` write, moved by `shift`
/// decimal places.
pub fn scale_digits(d: &Vec<char>, shift: i128) -> (r: u64)
    requires
        -0x1000_0000_0000_0000_0000_0000_0000i128 <= shift,
    ensures
        r == clamp_u64(scaled(digits_value(d@), shift as int)),
{
    let n = d.len();
    let ghost m = digits_value(d@);
    assert(d@.take(n as int) =~= d@);
    if shift >= 0 {
        let mut acc = capped_value(d, n, OVERFLOW);
        let mut left = shift;
        proof {
            lemma_pow10_positive(shift as nat);
            lemma_capped_product(m, OVERFLOW as nat, pow10(shift as nat));
        }
        while left > 0 && acc > 0 && acc < OVERFLOW
            invariant
                0 <= left <= shift,
                acc <= OVERFLOW,
                min_nat(acc as nat * pow10(left as nat), OVERFLOW as nat) == min_nat(
                    m * pow10(shift as nat),
                    OVERFLOW as nat,
                ),
            decreases left,
        {
            proof {
                let rest = pow10((left - 1) as nat);
                lemma_pow10_positive((left - 1) as nat);
                assert(pow10(left as nat) == 10 * rest);
                assert(acc as nat * (10 * rest) == (acc as nat * 10) * rest) by (nonlinear_arith);
                assert(acc as nat * 10 >= OVERFLOW ==> (acc as nat * 10) * rest >= OVERFLOW)
                    by (nonlinear_arith)
                    requires
                        rest >= 1,
                ;
                assert(OVERFLOW as nat * rest >= OVERFLOW) by (nonlinear_arith)
                    requires
                        rest >= 1,
                ;
            }
            let next = acc * 10;
            acc = if next > OVERFLOW {
                OVERFLOW
            } else {
                next
            };
            left = left - 1;
        }
        proof {
            lemma_scale_up_grows(acc as nat, left as nat);
            assert(left == 0 ==> acc as nat * pow10(left as nat) == acc) by (nonlinear_arith)
                requires
                    left == 0 ==> pow10(left as nat) == 1,
            ;
        }
        if acc >= OVERFLOW {
            u64::MAX
        } else {
            acc as u64
        }
    } else {
        let q = -shift;
        if q > n as i128 {
            proof {
                lemma_scaled_far(d@, shift as int);
            }
            0
        } else {
            let keep = n - (q as usize);
            let high = capped_value(d, keep, OVERFLOW);
            let digit = char_digit_value(d[keep]);
            proof {
                let tail = d@.skip(keep as int);
                lemma_digits_value_split(d@, keep as int);
                lemma_digits_value_split(tail, 1);
                lemma_digits_value_bound(tail.skip(1));
                assert(tail.take(1).drop_last().len() == 0);
                assert(digits_value(tail.take(1).drop_last()) == 0);
                assert(tail.take(1).last() == d@[keep as int]);
                assert(digits_value(tail.take(1)) == digit_value(d@[keep as int]));
                lemma_round_div_digit(
                    digits_value(d@.take(keep as int)),
                    digit as nat,
                    digits_value(tail.skip(1)),
                    q as nat,
                );
            }
            let up: u128 = if digit >= 5 {
                1
            } else {
                0
            };
            if high >= OVERFLOW || high + up >= OVERFLOW {
                u64::MAX
            } else {
                (high + up) as u64
            }
        }
    }
}

/// A decimal literal taken apart.
pub struct Literal {
    /// Whether a minus sign leads.
    pub negative: bool,
    /// The digits before and after the point, the point left out.
    pub digits: Seq<char>,
    /// How many of the digits stood after the point.
    pub fraction: nat,
    /// The exponent that follows `e` or `E`; zero where there is none.
    pub exponent: int,
}

/// Whether a sign stands at position `at`.
pub open spec fn sign_at(s: Seq<char>, at: int) -> bool {
    0 <= at < s.len() && (s[at] == '+' || s[at] == '-')
}

/// Whether a minus sign stands at position `at`.
pub open spec fn minus_at(s: Seq<char>, at: int) -> bool {
    0 <= at < s.len() && s[at] == '-'
}

/// Where the digits of the literal `s` begin: behind its sign, if it has one.
pub open spec fn integer_start(s: Seq<char>) -> int {
    if sign_at(s, 0) {
        1
    } else {
        0
    }
}

/// Where the digits before the point end.
pub open spec fn integer_end(s: Seq<char>) -> int {
    integer_start(s) + digit_run(s, integer_start(s))
}

/// Where the digits after the point begin; the end of the digits before it
/// where there is no point.
pub open spec fn fraction_start(s: Seq<char>) -> int {
    if integer_end(s) < s.len() && s[integer_end(s)] == '.' {
        integer_end(s) + 1
    } else {
        integer_end(s)
    }
}

/// Where the digits after the point end.
pub open spec fn fraction_end(s: Seq<char>) -> int {
    fraction_start(s) + digit_run(s, fraction_start(s))
}

/// The digits of the literal before and after the point.
pub open spec fn mantissa_digits(s: Seq<char>) -> Seq<char> {
    s.subrange(integer_start(s), integer_end(s)) + s.subrange(fraction_start(s), fraction_end(s))
}

/// The exponent written from position `at` to the end of `s`: `e` or `E`, an
/// optional sign and at least one digit. `None` where anything else stands
/// there.
pub open spec fn exponent_at(s: Seq<char>, at: int) -> Option<int> {
    let from = if sign_at(s, at + 1) {
        at + 2
    } else {
        at + 1
    };
    let to = from + digit_run(s, from);
    if 0 <= at < s.len() && (s[at] == 'e' || s[at] == 'E') && from < to && to == s.len() {
        let magnitude = digits_value(s.subrange(from, to)) as int;
        Some(
            if minus_at(s, at + 1) {
                -magnitude
            } else {
                magnitude
            },
        )
    } else {
        None
    }
}

/// Reads the whole of `s` as a decimal literal: an optional sign, digits with
/// an optional point among them (at least one digit in all), and an optional
/// exponent.
pub open spec fn parse_literal(s: Seq<char>) -> Option<Literal> {
    let exponent = if fraction_end(s) == s.len() {
        Some(0int)
    } else {
        exponent_at(s, fraction_end(s))
    };
    if mantissa_digits(s).len() == 0 || exponent is None {
        None
    } else {
        Some(
            Literal {
                negative: minus_at(s, 0),
                digits: mantissa_digits(s),
                fraction: (fraction_end(s) - fraction_start(s)) as nat,
                exponent: exponent->0,
            },
        )
    }
}

/// The byte count that the literal `s` stands for in a unit of ten to the
/// power `unit` bytes: its value times the unit, rounded to the nearest whole
/// number (a half rounds up) and held at the largest `u64`. Zero where `s` is
/// no literal, and zero for a negative one.
pub open spec fn literal_bytes(s: Seq<char>, unit: nat) -> nat {
    match parse_literal(s) {
        Some(literal) => if literal.negative {
            0
        } else {
            clamp_u64(
                scaled(digits_value(literal.digits), literal.exponent - literal.fraction + unit),
            )
        },
        None => 0,
    }
}

/// Bound at which an exponent is held: beyond it the result no longer
/// depends on the exponent.
pub const EXPONENT_LIMIT: u128 = 0x1_0000_0000_0000_0000_0000_0000u128;

/// Whether `held` stands for the exponent `exact`: the same number, or both
/// beyond the limit on the same side.
pub open spec fn holds_exponent(held: int, exact: int) -> bool {
    &&& -(EXPONENT_LIMIT as int) <= held <= EXPONENT_LIMIT as int
    &&& held == exact || (held == EXPONENT_LIMIT as int && exact >= held) || (held == -(
    EXPONENT_LIMIT as int) && exact <= held)
}

/// The digits of the literal, and how many of them stand after the point.
fn read_mantissa(s: &Vec<char>) -> (r: (Vec<char>, usize, usize))
    ensures
        r.0@ == mantissa_digits(s@),
        r.1 == fraction_end(s@) - fraction_start(s@),
        r.2 == fraction_end(s@),
        r.2 <= s.len(),
{
    let len = s.len();
    let int_from: usize = if len > 0 && (s[0] == '+' || s[0] == '-') {
        1
    } else {
        0
    };
    let int_to = scan_digits(s, int_from);
    let frac_from: usize = if int_to < len && s[int_to] == '.' {
        int_to + 1
    } else {
        int_to
    };
    let frac_to = scan_digits(s, frac_from);
    let mut digits = copy_range(s, int_from, int_to);
    push_range(&mut digits, s, frac_from, frac_to);
    (digits, frac_to - frac_from, frac_to)
}

/// The exponent written from position `at` on, held at the limit.
fn read_exponent(s: &Vec<char>, at: usize) -> (r: Option<i128>)
    requires
        at < s.len(),
    ensures
        r is Some <==> exponent_at(s@, at as int) is Some,
        r is Some ==> holds_exponent(r->0 as int, exponent_at(s@, at as int)->0),
{
    let len = s.len();
    if s[at] != 'e' && s[at] != 'E' {
        return None;
    }
    let signed = at + 1 < len && (s[at + 1] == '+' || s[at + 1] == '-');
    let negative = at + 1 < len && s[at + 1] == '-';
    let from: usize = if signed {
        at + 2
    } else {
        at + 1
    };
    let to = scan_digits(s, from);
    if to == from || to < len {
        return None;
    }
    let digits = copy_range(s, from, to);
    assert(digits@.take(digits.len() as int) =~= digits@);
    let magnitude = capped_value(&digits, digits.len(), EXPONENT_LIMIT);
    Some(
        if negative {
            -(magnitude as i128)
        } else {
            magnitude as i128
        },
    )
}

/// Executable form of [`literal_bytes`].
pub fn read_literal_bytes(s: &Vec<char>, unit: u8) -> (bytes: u64)
    ensures
        bytes == literal_bytes(s@, unit as nat),
{
    let negative = s.len() > 0 && s[0] == '-';
    let (digits, fraction, end) = read_mantissa(s);
    let exponent = if end == s.len() {
        Some(0i128)
    } else {
        read_exponent(s, end)
    };
    if digits.len() == 0 || negative {
        return 0;
    }
    match exponent {
        None => 0,
        Some(held) => {
            let shift = held - fraction as i128 + unit as i128;
            proof {
                let exact = parse_literal(s@)->0.exponent;
                let exact_shift = exact - fraction + unit;
                if exact != held {
                    lemma_scaled_far(digits@, exact_shift);
                    lemma_scaled_far(digits@, shift as int);
                }
            }
            scale_digits(&digits, shift)
        },
    }
}

/// A run of digits lies within the text and holds digits only.
pub proof fn lemma_digit_run(s: Seq<char>, from: int)
    requires
        0 <= from <= s.len(),
    ensures
        from + digit_run(s, from) <= s.len(),
        forall|i: int| from <= i < from + digit_run(s, from) ==> is_digit(#[trigger] s[i]),
    decreases s.len() - from,
{
    if from < s.len() && is_digit(s[from]) {
        lemma_digit_run(s, from + 1);
    }
}

/// A literal is not empty; it begins with a sign, a digit or the point, and
/// ends with a digit or the point.
pub proof fn lemma_literal_ends(s: Seq<char>)
    requires
        parse_literal(s) is Some,
    ensures
        s.len() > 0,
        s[0] == '+' || s[0] == '-' || s[0] == '.' || is_digit(s[0]),
        s.last() == '.' || is_digit(s.last()),
{
    lemma_digit_run(s, integer_start(s));
    lemma_digit_run(s, fraction_start(s));
    let end = fraction_end(s);
    if end != s.len() {
        let from = if sign_at(s, end + 1) {
            end + 2
        } else {
            end + 1
        };
        lemma_digit_run(s, from);
        assert(is_digit(s[s.len() - 1]));
    } else if digit_run(s, fraction_start(s)) > 0 {
        assert(is_digit(s[s.len() - 1]));
    } else if fraction_start(s) == integer_end(s) {
        assert(is_digit(s[s.len() - 1]));
    }
    if !sign_at(s, 0) && digit_run(s, 0) > 0 {
        assert(is_digit(s[0]));
    }
}

} // verus!
