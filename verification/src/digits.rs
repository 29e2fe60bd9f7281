//! Arithmetic of the accumulator: sixteen-bit wrapping and decimal digits.

use vstd::prelude::*;

verus! {

/// The value between -32768 and 32767 that differs from `x` by a multiple of
/// 65536.  Every result that does not fit the accumulator wraps to it.
pub open spec fn wrap16(x: int) -> int {
    let r = x % 65536;
    if r > 32767 {
        r - 65536
    } else {
        r
    }
}

/// Ten to the power `n`.
pub open spec fn pow10(n: nat) -> int
    decreases n,
{
    if n == 0 {
        1
    } else {
        10 * pow10((n - 1) as nat)
    }
}

/// The absolute value of `x`.
pub open spec fn magnitude(x: int) -> int {
    if x < 0 {
        -x
    } else {
        x
    }
}

/// -1 for a negative `x`, 1 for any other.
pub open spec fn sign(x: int) -> int {
    if x < 0 {
        -1
    } else {
        1
    }
}

/// Whether `pos` names one of the five decimal places of a sixteen-bit
/// value, the least significant being place 0.
pub open spec fn place_in_range(pos: int) -> bool {
    0 <= pos <= 4
}

/// The decimal digit of `x` at place `pos`, with the sign of `x`; 0 where
/// `pos` is out of range.
pub open spec fn digit_at(x: int, pos: int) -> int {
    if place_in_range(pos) {
        sign(x) * ((magnitude(x) / pow10(pos as nat)) % 10)
    } else {
        0
    }
}

/// `x` with the decimal digit at place `pos` replaced by `d`: the sign and
/// all other digits are those of `x`.  Where `pos` is out of range, `x`.
pub open spec fn with_digit(x: int, pos: int, d: int) -> int {
    if place_in_range(pos) {
        let m = magnitude(x);
        let p = pow10(pos as nat);
        sign(x) * (m - ((m / p) % 10) * p + d * p)
    } else {
        x
    }
}

/// The first five powers of ten.
pub proof fn lemma_pow10_table()
    ensures
        pow10(0) == 1,
        pow10(1) == 10,
        pow10(2) == 100,
        pow10(3) == 1000,
        pow10(4) == 10000,
{
    reveal_with_fuel(pow10, 5);
}

/// The place `pos` of a value whose digit at that place was replaced by `d`
/// holds `d`, with the sign of the value.
pub proof fn lemma_replaced_digit_is_read_back(x: int, pos: int, d: int)
    requires
        place_in_range(pos),
        0 <= d <= 9,
    ensures
        digit_at(with_digit(x, pos, d), pos) == sign(x) * d,
{
    lemma_pow10_table();
    let m = magnitude(x);
    let p = pow10(pos as nat);
    let old = (m / p) % 10;
    let after = m - old * p + d * p;
    assert(0 <= old <= 9);
    assert(m == p * (m / p) + m % p) by {
        vstd::arithmetic::div_mod::lemma_fundamental_div_mod(m, p);
    }
    let q = m / p;
    let upper = q / 10;
    assert(q == 10 * upper + old);
    // after == p * (10 * upper + d) + m % p
    assert(after == p * (10 * upper + d) + m % p) by (nonlinear_arith)
        requires
            m == p * q + m % p,
            q == 10 * upper + old,
            after == m - old * p + d * p,
    ;
    assert(0 <= m % p < p);
    assert(after / p == 10 * upper + d) by {
        vstd::arithmetic::div_mod::lemma_fundamental_div_mod_converse(
            after,
            p,
            10 * upper + d,
            m % p,
        );
    }
    assert(0 <= upper);
    assert((after / p) % 10 == d);
    assert(after >= 0) by (nonlinear_arith)
        requires
            after == p * (10 * upper + d) + m % p,
            p >= 1,
            upper >= 0,
            d >= 0,
            m % p >= 0,
    ;
    if after == 0 {
        assert(d == 0) by (nonlinear_arith)
            requires
                after == p * (10 * upper + d) + m % p,
                after == 0,
                p >= 1,
                upper >= 0,
                d >= 0,
                m % p >= 0,
        ;
    }
    let y = with_digit(x, pos, d);
    assert(y == sign(x) * after);
    assert(y == if x < 0 {
        -after
    } else {
        after
    }) by (nonlinear_arith)
        requires
            y == sign(x) * after,
            sign(x) == if x < 0 {
                -1int
            } else {
                1int
            },
    ;
    assert(magnitude(y) == after);
    let found = (magnitude(y) / p) % 10;
    assert(found == d);
    assert(digit_at(y, pos) == sign(y) * found);
    assert(sign(y) * found == sign(x) * d) by (nonlinear_arith)
        requires
            found == d,
            after == 0 ==> d == 0,
            sign(y) == if y < 0 {
                -1int
            } else {
                1int
            },
            sign(x) == if x < 0 {
                -1int
            } else {
                1int
            },
            y == if x < 0 {
                -after
            } else {
                after
            },
            after >= 0,
    ;
}

/// Replacing the digit at one place leaves the digits at the other places
/// what they were.
pub proof fn lemma_other_digits_stay(x: int, pos: int, d: int, other: int)
    requires
        place_in_range(pos),
        place_in_range(other),
        other != pos,
        0 <= d <= 9,
    ensures
        digit_at(with_digit(x, pos, d), other) == digit_at(x, other),
{
    lemma_pow10_table();
    let m = magnitude(x);
    let p = pow10(pos as nat);
    let r = pow10(other as nat);
    let old = (m / p) % 10;
    let after = m - old * p + d * p;
    let y = with_digit(x, pos, d);
    assert(old * p <= m) by (nonlinear_arith)
        requires
            old == (m / p) % 10,
            0 <= m,
            1 <= p,
    ;
    assert(0 <= d * p) by (nonlinear_arith)
        requires
            0 <= d,
            1 <= p,
    ;
    assert(after >= 0);
    assert(y == if x < 0 {
        -after
    } else {
        after
    }) by (nonlinear_arith)
        requires
            y == sign(x) * after,
            sign(x) == if x < 0 {
                -1int
            } else {
                1int
            },
    ;
    assert(magnitude(y) == after);
    assert((after / r) % 10 == (m / r) % 10) by {
        lemma_digits_apart(m, pos, d, other);
    }
    let kept = (m / r) % 10;
    assert(digit_at(y, other) == sign(y) * kept);
    assert(digit_at(x, other) == sign(x) * kept);
    if kept != 0 {
        assert(after != 0) by {
            if after == 0 {
                assert((0int / r) % 10 == 0);
            }
        }
    }
    assert(sign(y) * kept == sign(x) * kept) by (nonlinear_arith)
        requires
            kept != 0 ==> after != 0,
            after >= 0,
            y == if x < 0 {
                -after
            } else {
                after
            },
            sign(y) == if y < 0 {
                -1int
            } else {
                1int
            },
            sign(x) == if x < 0 {
                -1int
            } else {
                1int
            },
    ;
}

/// The digit of a number at the place `other` does not depend on its digit
/// at the place `pos`.
proof fn lemma_digits_apart(m: int, pos: int, d: int, other: int)
    requires
        0 <= m,
        place_in_range(pos),
        place_in_range(other),
        other != pos,
        0 <= d <= 9,
    ensures
        ((m - ((m / pow10(pos as nat)) % 10) * pow10(pos as nat) + d * pow10(pos as nat)) / pow10(
            other as nat,
        )) % 10 == (m / pow10(other as nat)) % 10,
{
    lemma_pow10_table();
    let p = pow10(pos as nat);
    let r = pow10(other as nat);
    let old = (m / p) % 10;
    // Write m as low + old * p + high * 10 * p.
    let low = m % p;
    let high = (m / p) / 10;
    assert(m == low + p * (m / p)) by {
        vstd::arithmetic::div_mod::lemma_fundamental_div_mod(m, p);
    }
    assert(m / p == 10 * high + old);
    assert(m == low + old * p + high * (10 * p)) by (nonlinear_arith)
        requires
            m == low + p * (m / p),
            m / p == 10 * high + old,
    ;
    let after = m - old * p + d * p;
    assert(after == low + d * p + high * (10 * p)) by (nonlinear_arith)
        requires
            after == m - old * p + d * p,
            m == low + old * p + high * (10 * p),
    ;
    assert(0 <= low < p);
    assert(0 <= high);
    assert(0 <= old <= 9);
    if other < pos {
        // r divides p, and 10 * r divides p: the places below `pos` lie in `low`.
        let k = p / (10 * r);
        assert(p == k * (10 * r) && k >= 1) by {
            lemma_pow10_divides(other, pos);
        }
        let body = d * k + high * (10 * k);
        let body0 = old * k + high * (10 * k);
        assert(after == low + body * (10 * r)) by (nonlinear_arith)
            requires
                after == low + d * p + high * (10 * p),
                p == k * (10 * r),
                body == d * k + high * (10 * k),
        ;
        assert(m == low + body0 * (10 * r)) by (nonlinear_arith)
            requires
                m == low + old * p + high * (10 * p),
                p == k * (10 * r),
                body0 == old * k + high * (10 * k),
        ;
        lemma_digit_of_sum(low, body, r);
        lemma_digit_of_sum(low, body0, r);
    } else {
        // p divides r / 10 ... the places above `pos` lie in `high`.
        let k = r / (10 * p);
        assert(r == k * (10 * p) && k >= 1) by {
            lemma_pow10_divides(pos, other);
        }
        let small = low + d * p;
        let small0 = low + old * p;
        assert(0 <= small < 10 * p) by (nonlinear_arith)
            requires
                small == low + d * p,
                0 <= low < p,
                0 <= d <= 9,
        ;
        assert(0 <= small0 < 10 * p) by (nonlinear_arith)
            requires
                small0 == low + old * p,
                0 <= low < p,
                0 <= old <= 9,
        ;
        lemma_digit_above(small, high, 10 * p, k);
        lemma_digit_above(small0, high, 10 * p, k);
        assert(after == small + high * (10 * p));
        assert(m == small0 + high * (10 * p));
    }
}

/// A power of ten is a multiple of ten times every smaller power of ten.
proof fn lemma_pow10_divides(lo: int, hi: int)
    requires
        0 <= lo < hi <= 4,
    ensures
        pow10(hi as nat) == (pow10(hi as nat) / (10 * pow10(lo as nat))) * (10 * pow10(lo as nat)),
        pow10(hi as nat) / (10 * pow10(lo as nat)) >= 1,
{
    lemma_pow10_table();
    let h = pow10(hi as nat);
    let l = 10 * pow10(lo as nat);
    let q = h / l;
    assert(h == q * l && q >= 1) by (nonlinear_arith)
        requires
            q == h / l,
            (h == 10 && l == 10) || (h == 100 && (l == 10 || l == 100)) || (h == 1000 && (l == 10
                || l == 100 || l == 1000)) || (h == 10000 && (l == 10 || l == 100 || l == 1000 || l
                == 10000)),
    ;
}

/// The digit at the place of `r` of `low + body * 10 * r` is that of `low`.
proof fn lemma_digit_of_sum(low: int, body: int, r: int)
    requires
        0 <= low,
        0 <= body,
        1 <= r,
    ensures
        ((low + body * (10 * r)) / r) % 10 == (low / r) % 10,
{
    let total = low + body * (10 * r);
    assert(total == low + (body * 10) * r) by (nonlinear_arith)
        requires
            total == low + body * (10 * r),
    ;
    vstd::arithmetic::div_mod::lemma_div_multiples_vanish_fancy(body * 10, low % r, r);
    vstd::arithmetic::div_mod::lemma_fundamental_div_mod(low, r);
    let q = low / r;
    assert(total == (body * 10 + q) * r + low % r) by (nonlinear_arith)
        requires
            total == low + (body * 10) * r,
            low == r * q + low % r,
    ;
    assert(0 <= low % r < r);
    vstd::arithmetic::div_mod::lemma_fundamental_div_mod_converse(
        total,
        r,
        body * 10 + q,
        low % r,
    );
    assert(total / r == body * 10 + q);
    assert((body * 10 + q) % 10 == q % 10);
}

/// The digits of `small + high * span` above `span` are those of `high`,
/// whatever `small` below `span` is: with `r = k * span`, the digit at the
/// place of `r` is that of `high` at the place of `k`.
proof fn lemma_digit_above(small: int, high: int, span: int, k: int)
    requires
        0 <= small < span,
        0 <= high,
        1 <= k,
    ensures
        ((small + high * span) / (k * span)) % 10 == (high / k) % 10,
{
    let total = small + high * span;
    let r = k * span;
    assert(r >= 1) by (nonlinear_arith)
        requires
            r == k * span,
            k >= 1,
            span >= 1,
    ;
    vstd::arithmetic::div_mod::lemma_fundamental_div_mod(high, k);
    let q = high / k;
    let rem = high % k;
    assert(0 <= rem < k);
    let tail = small + rem * span;
    assert(total == q * r + tail) by (nonlinear_arith)
        requires
            total == small + high * span,
            high == k * q + rem,
            r == k * span,
            tail == small + rem * span,
    ;
    assert(0 <= tail < r) by (nonlinear_arith)
        requires
            tail == small + rem * span,
            0 <= small < span,
            0 <= rem < k,
            r == k * span,
    ;
    vstd::arithmetic::div_mod::lemma_fundamental_div_mod_converse(total, r, q, tail);
}

/// `10^pos` for a place in range.
fn power_of_ten(pos: i16) -> (p: i32)
    requires
        place_in_range(pos as int),
    ensures
        p == pow10(pos as nat),
        1 <= p <= 10000,
{
    proof {
        lemma_pow10_table();
    }
    if pos == 0 {
        1
    } else if pos == 1 {
        10
    } else if pos == 2 {
        100
    } else if pos == 3 {
        1000
    } else {
        10000
    }
}

/// The absolute value of `x`, which always fits in 32 bits.
fn magnitude_of(x: i16) -> (m: i32)
    ensures
        m == magnitude(x as int),
        0 <= m <= 32768,
{
    if x < 0 {
        -(x as i32)
    } else {
        x as i32
    }
}

/// Brings a value of at most six decimal digits into the accumulator's
/// range.
fn wrap(x: i32) -> (r: i16)
    requires
        -1000000 < x < 1000000,
    ensures
        r == wrap16(x as int),
{
    let shifted: i32 = x + 1048576;
    let low: i32 = shifted % 65536;
    assert(low == (x as int) % 65536) by {
        assert(shifted == (x as int) + 16 * 65536);
    }
    if low > 32767 {
        (low - 65536) as i16
    } else {
        low as i16
    }
}

/// The sum of `a` and `b`, wrapped into the accumulator's range.
pub fn wrapping_sum(a: i16, b: i16) -> (r: i16)
    ensures
        r == wrap16(a + b),
{
    a.wrapping_add(b)
}

/// The difference of `a` and `b`, wrapped into the accumulator's range.
pub fn wrapping_difference(a: i16, b: i16) -> (r: i16)
    ensures
        r == wrap16(a - b),
{
    a.wrapping_sub(b)
}

/// The product of `a` and `b`, wrapped into the accumulator's range.
pub fn wrapping_product(a: i16, b: i16) -> (r: i16)
    ensures
        r == wrap16(a * b),
{
    a.wrapping_mul(b)
}

/// The decimal digit of `acc` at place `pos`, signed as `acc` is, and 0
/// where `pos` is out of range.
pub fn digit(acc: i16, pos: i16) -> (r: i16)
    ensures
        r == digit_at(acc as int, pos as int),
{
    if pos < 0 || pos > 4 {
        return 0;
    }
    let m = magnitude_of(acc);
    let p = power_of_ten(pos);
    let d: i32 = (m / p) % 10;
    if acc < 0 {
        (-d) as i16
    } else {
        d as i16
    }
}

/// `acc` with the decimal digit at place `pos` replaced by `d`, wrapped into
/// the accumulator's range; `acc` itself where `pos` is out of range.
/// `None` exactly where `d` is no decimal digit.
pub fn set_digit(acc: i16, pos: i16, d: i16) -> (r: Option<i16>)
    ensures
        r is Some <==> 0 <= d <= 9,
        r is Some ==> r.unwrap() == wrap16(with_digit(acc as int, pos as int, d as int)),
{
    if d < 0 || d > 9 {
        return None;
    }
    if pos < 0 || pos > 4 {
        return Some(acc);
    }
    let m = magnitude_of(acc);
    let p = power_of_ten(pos);
    let old: i32 = (m / p) % 10;
    assert(old * p <= m) by (nonlinear_arith)
        requires
            old == (m / p) % 10,
            0 <= m,
            1 <= p,
    ;
    assert(0 <= old * p) by (nonlinear_arith)
        requires
            0 <= old,
            1 <= p,
    ;
    assert(0 <= d * p <= 90000) by (nonlinear_arith)
        requires
            0 <= d <= 9,
            1 <= p <= 10000,
    ;
    let lower: i32 = m - old * p;
    let replaced: i32 = lower + (d as i32) * p;
    if acc < 0 {
        Some(wrap(-replaced))
    } else {
        Some(wrap(replaced))
    }
}

} // verus!
