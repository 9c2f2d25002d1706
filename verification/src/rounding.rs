//! Binary rounding on integers.
//!
//! Layout coordinates and cursor targets are scaled with the rounding of IEEE 754 arithmetic:
//! every intermediate value keeps a fixed number of significant bits, ties go to the even
//! neighbour, and the final pixel position is the nearest integer with halves rounded up.
//! Values are carried as integers in units of a power of two, so each step is exact
//! integer arithmetic.

use vstd::arithmetic::power2::pow2;
use vstd::prelude::*;

verus! {

/// Significant bits of a single-precision value.
pub const SINGLE_BITS: u32 = 24;

/// Significant bits of a double-precision value.
pub const DOUBLE_BITS: u32 = 53;

/// Number of binary digits of `n`; zero has none.
pub open spec fn bits(n: nat) -> nat
    decreases n,
{
    if n == 0 {
        0
    } else {
        1 + bits(n / 2)
    }
}

/// Integer nearest to `num / den`, ties to the even neighbour.
pub open spec fn nearest_even(num: nat, den: nat) -> nat {
    let q = num / den;
    let r = num % den;
    if 2 * r < den || (2 * r == den && q % 2 == 0) {
        q
    } else {
        q + 1
    }
}

/// Integer nearest to `num / den`, halves rounded up.
pub open spec fn nearest(num: nat, den: nat) -> nat {
    if 2 * (num % den) < den {
        num / den
    } else {
        num / den + 1
    }
}

/// Low binary digits of `n` beyond the leading `precision` ones.
pub open spec fn excess(n: nat, precision: nat) -> nat {
    if bits(n) > precision {
        (bits(n) - precision) as nat
    } else {
        0
    }
}

/// `num / den` rounded to `precision` significant bits, for a ratio of at least that many
/// binary digits; a shorter ratio is rounded to an integer.
pub open spec fn round_ratio(num: nat, den: nat, precision: nat) -> nat {
    let unit = pow2(excess(num / den, precision));
    nearest_even(num, den * unit) * unit
}

/// `n` rounded to `precision` significant bits.
pub open spec fn round_bits(n: nat, precision: nat) -> nat {
    round_ratio(n, 1, precision)
}

proof fn lemma_bits_bounds(n: nat)
    requires
        n > 0,
    ensures
        bits(n) > 0,
        pow2((bits(n) - 1) as nat) <= n < pow2(bits(n)),
    decreases n,
{
    broadcast use vstd::arithmetic::power2::lemma_pow2_unfold;

    vstd::arithmetic::power2::lemma2_to64();
    if n > 1 {
        lemma_bits_bounds(n / 2);
        let b = bits(n / 2);
        assert(pow2(b + 1) == 2 * pow2(b));
        assert(pow2(b) == 2 * pow2((b - 1) as nat));
    } else {
        assert(bits(1) == 1) by {
            reveal_with_fuel(bits, 2);
        }
    }
}

proof fn lemma_bits_unique(n: nat, b: nat)
    requires
        b > 0,
        pow2((b - 1) as nat) <= n < pow2(b),
    ensures
        bits(n) == b,
{
    broadcast use vstd::arithmetic::power2::lemma_pow2_pos;

    lemma_bits_bounds(n);
    let c = bits(n);
    if c < b {
        if c < b - 1 {
            vstd::arithmetic::power2::lemma_pow2_strictly_increases(c, (b - 1) as nat);
        }
    } else if b < c {
        if b < c - 1 {
            vstd::arithmetic::power2::lemma_pow2_strictly_increases(b, (c - 1) as nat);
        }
    }
}

/// A value below a power of two has at most that many binary digits.
proof fn lemma_bits_at_most(n: nat, b: nat)
    requires
        n < pow2(b),
    ensures
        bits(n) <= b,
{
    if n > 0 && bits(n) > b {
        lemma_bits_bounds(n);
        if b < bits(n) - 1 {
            vstd::arithmetic::power2::lemma_pow2_strictly_increases(b, (bits(n) - 1) as nat);
        }
    }
}

/// Counts the binary digits of `n`.
fn bit_length(n: u128) -> (r: u32)
    ensures
        r == bits(n as nat),
        r <= 128,
{
    let mut rest: u128 = n;
    let mut count: u32 = 0;
    proof {
        vstd::arithmetic::power2::lemma2_to64();
        vstd::arithmetic::power2::lemma_pow2_adds(64, 64);
        lemma_bits_at_most(n as nat, 128);
    }
    while rest > 0
        invariant
            bits(n as nat) == count + bits(rest as nat),
            bits(n as nat) <= 128,
        decreases rest,
    {
        rest = rest / 2;
        count = count + 1;
    }
    count
}

/// Two to the power of `e`.
fn power_of_two(e: u32) -> (r: u128)
    requires
        e < 128,
    ensures
        r == pow2(e as nat),
{
    let mut r: u128 = 1;
    let mut i: u32 = 0;
    proof {
        vstd::arithmetic::power2::lemma2_to64();
    }
    while i < e
        invariant
            i <= e < 128,
            r == pow2(i as nat),
        decreases e - i,
    {
        proof {
            vstd::arithmetic::power2::lemma2_to64();
            vstd::arithmetic::power2::lemma_pow2_adds(64, 64);
            vstd::arithmetic::power2::lemma_pow2_unfold(128);
            if i < 126 {
                vstd::arithmetic::power2::lemma_pow2_strictly_increases((i + 1) as nat, 127);
            }
            vstd::arithmetic::power2::lemma_pow2_unfold((i + 1) as nat);
        }
        r = r * 2;
        i = i + 1;
    }
    r
}

/// Rounds `num / den` to the nearest integer, ties to even.
fn divide_to_even(num: u128, den: u128) -> (r: u128)
    requires
        den > 0,
        num < 0x8000_0000_0000_0000_0000_0000_0000_0000,
    ensures
        r == nearest_even(num as nat, den as nat),
        r <= num / den + 1,
{
    let q: u128 = num / den;
    let r: u128 = num % den;
    assert(r <= num) by (nonlinear_arith)
        requires
            r == num % den,
            den > 0,
    ;
    assert(q <= num) by (nonlinear_arith)
        requires
            q == num / den,
            den > 0,
    ;
    if 2 * r < den || (2 * r == den && q % 2 == 0) {
        q
    } else {
        q + 1
    }
}

/// Rounds `num / den` to the nearest integer, halves up.
fn divide_half_up(num: u128, den: u128) -> (r: u128)
    requires
        den > 0,
        num < 0x8000_0000_0000_0000_0000_0000_0000_0000,
    ensures
        r == nearest(num as nat, den as nat),
        r <= num / den + 1,
{
    let q: u128 = num / den;
    let r: u128 = num % den;
    assert(r <= num) by (nonlinear_arith)
        requires
            r == num % den,
            den > 0,
    ;
    assert(q <= num) by (nonlinear_arith)
        requires
            q == num / den,
            den > 0,
    ;
    if 2 * r < den {
        q
    } else {
        q + 1
    }
}

/// Leading digits and their unit: the first component times two to the second is
/// `num / den` rounded to `precision` significant bits.
fn round_parts(num: u128, den: u128, precision: u32) -> (r: (u128, u32))
    requires
        den > 0,
        precision > 0,
        num < 0x8000_0000_0000_0000_0000_0000_0000_0000,
    ensures
        r.1 == excess((num / den) as nat, precision as nat),
        r.0 * pow2(r.1 as nat) == round_ratio(num as nat, den as nat, precision as nat),
        r.0 <= pow2(precision as nat),
        r.1 < 128,
{
    let q: u128 = num / den;
    let length: u32 = bit_length(q);
    let s: u32 = if length > precision {
        length - precision
    } else {
        0
    };
    let unit: u128 = power_of_two(s);
    proof {
        assert(q as nat == num as nat / den as nat);
        vstd::arithmetic::power2::lemma2_to64();
        lemma_unit_fits(num as nat, den as nat, precision as nat);
    }
    let m: u128 = divide_to_even(num, den * unit);
    proof {
        lemma_leading_digits(num as nat, den as nat, precision as nat);
    }
    (m, s)
}

/// The unit of a rounded ratio times its denominator does not exceed the numerator.
proof fn lemma_unit_fits(num: nat, den: nat, precision: nat)
    requires
        den > 0,
        precision > 0,
    ensures
        den * pow2(excess(num / den, precision)) <= num || excess(num / den, precision) == 0,
        den * pow2(excess(num / den, precision)) > 0,
{
    broadcast use vstd::arithmetic::power2::lemma_pow2_pos;

    let q = num / den;
    let s = excess(q, precision);
    vstd::arithmetic::power2::lemma2_to64();
    assert(den * pow2(s) > 0) by (nonlinear_arith)
        requires
            den > 0,
            pow2(s) > 0,
    ;
    if s > 0 {
        lemma_bits_bounds(q);
        if s < bits(q) - 1 {
            vstd::arithmetic::power2::lemma_pow2_strictly_increases(s, (bits(q) - 1) as nat);
        }
        assert(pow2(s) <= q);
        assert(den * pow2(s) <= den * q) by (nonlinear_arith)
            requires
                pow2(s) <= q,
        ;
        vstd::arithmetic::div_mod::lemma_fundamental_div_mod(num as int, den as int);
        assert(den * q <= num);
    }
}

/// Dividing by the unit leaves at most `precision` digits.
proof fn lemma_leading_digits(num: nat, den: nat, precision: nat)
    requires
        den > 0,
        precision > 0,
    ensures
        num / (den * pow2(excess(num / den, precision))) < pow2(precision),
        nearest_even(num, den * pow2(excess(num / den, precision))) <= pow2(precision),
{
    broadcast use vstd::arithmetic::power2::lemma_pow2_pos;

    let q = num / den;
    let s = excess(q, precision);
    let unit = pow2(s);
    vstd::arithmetic::div_mod::lemma_div_denominator(num as int, den as int, unit as int);
    assert(num / (den * unit) == q / unit);
    assert(q < pow2(precision) * unit) by {
        vstd::arithmetic::power2::lemma_pow2_adds(precision, s);
        if q > 0 {
            lemma_bits_bounds(q);
            if bits(q) < precision + s {
                vstd::arithmetic::power2::lemma_pow2_strictly_increases(bits(q), precision + s);
            }
        } else {
            vstd::arithmetic::power2::lemma_pow2_pos(precision + s);
        }
    }
    assert(q / unit < pow2(precision)) by {
        vstd::arithmetic::div_mod::lemma_div_by_multiple_is_strongly_ordered(
            q as int,
            (pow2(precision) * unit) as int,
            pow2(precision) as int,
            unit as int,
        );
        vstd::arithmetic::div_mod::lemma_div_by_multiple(pow2(precision) as int, unit as int);
    }
}

/// Rounds `num / den` to `precision` significant bits.
fn round_ratio_to(num: u128, den: u128, precision: u32) -> (r: u128)
    requires
        den > 0,
        0 < precision <= 64,
        num < 0x2000_0000_0000_0000_0000_0000_0000_0000,
    ensures
        r == round_ratio(num as nat, den as nat, precision as nat),
{
    let (m, s): (u128, u32) = round_parts(num, den, precision);
    let unit: u128 = power_of_two(s);
    proof {
        lemma_round_ratio_at_most_double(num as nat, den as nat, precision as nat);
    }
    m * unit
}

/// Rounding to significant bits at most doubles a ratio, or reaches one.
proof fn lemma_round_ratio_at_most_double(num: nat, den: nat, precision: nat)
    requires
        den > 0,
        precision > 0,
    ensures
        round_ratio(num, den, precision) <= 2 * (num / den) + 1,
{
    broadcast use vstd::arithmetic::power2::lemma_pow2_pos;

    let q = num / den;
    let s = excess(q, precision);
    let unit = pow2(s);
    vstd::arithmetic::power2::lemma2_to64();
    vstd::arithmetic::div_mod::lemma_div_denominator(num as int, den as int, unit as int);
    let m = q / unit;
    assert(round_ratio(num, den, precision) <= (m + 1) * unit) by (nonlinear_arith)
        requires
            round_ratio(num, den, precision) == nearest_even(num, den * unit) * unit,
            nearest_even(num, den * unit) <= m + 1,
            unit > 0,
    ;
    vstd::arithmetic::div_mod::lemma_fundamental_div_mod(q as int, unit as int);
    assert((m + 1) * unit == unit * m + unit) by (nonlinear_arith);
    if s > 0 {
        lemma_bits_bounds(q);
        if s < bits(q) - 1 {
            vstd::arithmetic::power2::lemma_pow2_strictly_increases(s, (bits(q) - 1) as nat);
        }
    }
}

/// Nearest single-precision value of an integer.
pub open spec fn single(n: nat) -> nat {
    round_bits(n, SINGLE_BITS as nat)
}

/// Fraction digits carried by a single-precision quotient of integers below 2^32.
pub const QUOTIENT_BITS: u32 = 56;

/// `value * to / from` in single precision, rounded to the nearest pixel and saturated at the
/// largest coordinate.
pub open spec fn scaled_coordinate(value: nat, to: nat, from: nat) -> nat {
    let unit = pow2(QUOTIENT_BITS as nat);
    let product = single(single(value) * single(to));
    let quotient = round_ratio(product * unit, single(from), SINGLE_BITS as nat);
    let pixel = nearest(quotient, unit);
    if pixel > u32::MAX {
        u32::MAX as nat
    } else {
        pixel
    }
}

/// A single-precision value of an integer keeps a power-of-two bound and stays positive.
pub proof fn lemma_single_range(n: nat, b: nat)
    requires
        n <= pow2(b),
    ensures
        single(n) <= pow2(b),
        n > 0 ==> single(n) > 0,
        n < pow2(24) ==> single(n) == n,
{
    broadcast use vstd::arithmetic::power2::lemma_pow2_pos;

    let s = excess(n, 24);
    let unit = pow2(s);
    vstd::arithmetic::power2::lemma2_to64();
    assert(n / 1 == n);
    assert(1 * unit == unit);
    if n < pow2(24) {
        lemma_bits_at_most(n, 24);
        assert(n % 1 == 0);
        assert(nearest_even(n, 1) == n);
    }
    if n > 0 {
        lemma_bits_bounds(n);
        if s > 0 {
            // A power of two at or above `n` is a multiple of the unit, so rounding up to the
            // next multiple cannot pass it.
            let k = bits(n);
            if n == pow2(b) {
                vstd::arithmetic::power2::lemma_pow2_adds(s, (b - s) as nat);
                vstd::arithmetic::power2::lemma_pow2_strictly_increases(b, (b + 1) as nat);
                lemma_bits_unique(n, (b + 1) as nat);
            } else {
                lemma_bits_at_most(n, b);
                vstd::arithmetic::power2::lemma_pow2_adds(s, (b - s) as nat);
            }
            assert(b >= s);
            let top = pow2((b - s) as nat);
            assert(pow2(b) == unit * top);
            let q = n / unit;
            vstd::arithmetic::div_mod::lemma_fundamental_div_mod(n as int, unit as int);
            assert(nearest_even(n, unit) <= top) by {
                if q >= top {
                    assert(q == top && n % unit == 0) by (nonlinear_arith)
                        requires
                            n == unit * q + n % unit,
                            n % unit >= 0,
                            n <= unit * top,
                            q >= top,
                            unit > 0,
                    ;
                }
            }
            assert(nearest_even(n, unit) * unit <= unit * top) by (nonlinear_arith)
                requires
                    nearest_even(n, unit) <= top,
            ;
            // The leading digit survives the division by the unit.
            if s < bits(n) - 1 {
                vstd::arithmetic::power2::lemma_pow2_strictly_increases(s, (bits(n) - 1) as nat);
            }
            let rest = n % unit;
            assert(q >= 1) by (nonlinear_arith)
                requires
                    n == unit * q + rest,
                    rest < unit,
                    unit <= n,
            ;
            assert(nearest_even(n, unit) * unit > 0) by (nonlinear_arith)
                requires
                    nearest_even(n, unit) >= 1,
                    unit > 0,
            ;
        } else {
            assert(n % 1 == 0);
        }
    } else {
        assert(nearest_even(0, 1) == 0);
    }
}

/// Nearest single-precision value of an integer.
pub(crate) fn to_single(n: u128) -> (r: u128)
    requires
        n <= 0x1_0000_0000_0000_0000,
    ensures
        r == single(n as nat),
{
    round_ratio_to(n, 1, SINGLE_BITS)
}

/// Maps a coordinate authored against a length of `from` onto a length of `to`.
pub fn scale_coordinate(value: u32, to: u32, from: u32) -> (r: u32)
    requires
        from > 0,
    ensures
        r == scaled_coordinate(value as nat, to as nat, from as nat),
{
    proof {
        vstd::arithmetic::power2::lemma2_to64();
        vstd::arithmetic::power2::lemma_pow2_adds(32, 32);
        vstd::arithmetic::power2::lemma_pow2_adds(32, 24);
        lemma_single_range(value as nat, 32);
        lemma_single_range(to as nat, 32);
        lemma_single_range(from as nat, 32);
    }
    let a: u128 = to_single(value as u128);
    let b: u128 = to_single(to as u128);
    assert(a * b <= 0x1_0000_0000_0000_0000) by (nonlinear_arith)
        requires
            a <= 0x1_0000_0000,
            b <= 0x1_0000_0000,
    ;
    let product: u128 = to_single(a * b);
    proof {
        lemma_single_range((a * b) as nat, 64);
    }
    let denominator: u128 = to_single(from as u128);
    let unit: u128 = power_of_two(QUOTIENT_BITS);
    assert(product * unit <= 0x1_0000_0000_0000_0000 * 0x100_0000_0000_0000) by (nonlinear_arith)
        requires
            product <= 0x1_0000_0000_0000_0000,
            unit == 0x100_0000_0000_0000,
    ;
    let quotient: u128 = round_ratio_to(product * unit, denominator, SINGLE_BITS);
    proof {
        lemma_round_ratio_at_most_double((product * unit) as nat, denominator as nat, 24);
        assert((product * unit) / denominator as int <= product * unit) by (nonlinear_arith)
            requires
                denominator > 0,
                product * unit >= 0,
        ;
    }
    let pixel: u128 = divide_half_up(quotient, unit);
    if pixel > 0xFFFF_FFFF {
        u32::MAX
    } else {
        pixel as u32
    }
}

/// Fraction digits carried by the ratio of two lengths below 2^32 in double precision.
pub const RATIO_BITS: u32 = 85;

/// `source / preview` in double precision, in units of `2^-85`.
pub open spec fn length_ratio(source: nat, preview: nat) -> nat {
    round_ratio(source * pow2(RATIO_BITS as nat), preview, DOUBLE_BITS as nat)
}

/// Distance from the origin that `magnitude` scales to: the double-precision product with the
/// length ratio, rounded to the nearest pixel.
pub open spec fn scaled_distance(magnitude: nat, source: nat, preview: nat) -> nat {
    nearest(
        round_bits(magnitude * length_ratio(source, preview), DOUBLE_BITS as nat),
        pow2(RATIO_BITS as nat),
    )
}

/// `x` scaled from a length of `preview` up to a length of `source`, symmetric about the
/// origin and saturated at the coordinate range.
pub open spec fn scaled_position(x: int, source: nat, preview: nat) -> int {
    if x >= 0 {
        let d = scaled_distance(x as nat, source, preview);
        if d > i32::MAX {
            i32::MAX as int
        } else {
            d as int
        }
    } else {
        let d = scaled_distance((-x) as nat, source, preview);
        if d > -i32::MIN {
            i32::MIN as int
        } else {
            -d
        }
    }
}

/// A common factor cancels out of both roundings.
proof fn lemma_common_factor(num: nat, den: nat, factor: nat)
    requires
        den > 0,
        factor > 0,
    ensures
        nearest_even(num * factor, den * factor) == nearest_even(num, den),
        nearest(num * factor, den * factor) == nearest(num, den),
        den * factor > 0,
{
    let q = num / den;
    let r = num % den;
    assert(den * factor > 0) by (nonlinear_arith)
        requires
            den > 0,
            factor > 0,
    ;
    vstd::arithmetic::div_mod::lemma_fundamental_div_mod(num as int, den as int);
    assert(num * factor == q * (den * factor) + r * factor) by (nonlinear_arith)
        requires
            num == den * q + r,
    ;
    assert(r * factor < den * factor) by (nonlinear_arith)
        requires
            r < den,
            factor > 0,
    ;
    vstd::arithmetic::div_mod::lemma_fundamental_div_mod_converse(
        (num * factor) as int,
        (den * factor) as int,
        q as int,
        (r * factor) as int,
    );
    assert(2 * (r * factor) < den * factor <==> 2 * r < den) by (nonlinear_arith)
        requires
            factor > 0,
    ;
    assert(2 * (r * factor) == den * factor <==> 2 * r == den) by (nonlinear_arith)
        requires
            factor > 0,
    ;
}

/// Appending binary zeros to a value shifts its rounded form by the same amount.
proof fn lemma_round_bits_shift(n: nat, k: nat, precision: nat)
    requires
        precision > 0,
    ensures
        round_bits(n * pow2(k), precision) == round_bits(n, precision) * pow2(k),
{
    broadcast use vstd::arithmetic::power2::lemma_pow2_pos;

    vstd::arithmetic::power2::lemma2_to64();
    let shifted = n * pow2(k);
    assert(shifted / 1 == shifted && n / 1 == n);
    assert(round_bits(shifted, precision) == nearest_even(
        shifted,
        1 * pow2(excess(shifted, precision)),
    ) * pow2(excess(shifted, precision)));
    assert(round_bits(n, precision) == nearest_even(n, 1 * pow2(excess(n, precision))) * pow2(
        excess(n, precision),
    ));
    if n == 0 {
        assert(shifted == 0) by (nonlinear_arith)
            requires
                shifted == n * pow2(k),
                n == 0,
        ;
        assert(nearest_even(0, 1) == 0);
        assert(0 * pow2(k) == 0);
    } else {
        lemma_bits_bounds(n);
        let b = bits(n);
        vstd::arithmetic::power2::lemma_pow2_adds((b - 1) as nat, k);
        vstd::arithmetic::power2::lemma_pow2_adds(b, k);
        assert(pow2((b - 1) as nat) * pow2(k) <= shifted < pow2(b) * pow2(k)) by (nonlinear_arith)
            requires
                shifted == n * pow2(k),
                pow2((b - 1) as nat) <= n < pow2(b),
                pow2(k) > 0,
        ;
        lemma_bits_unique(shifted, b + k);
        let s = excess(n, precision);
        let t = excess(shifted, precision);
        if b > precision {
            assert(t == s + k);
            vstd::arithmetic::power2::lemma_pow2_adds(s, k);
            lemma_common_factor(n, pow2(s), pow2(k));
            assert(1 * pow2(t) == pow2(t) && 1 * pow2(s) == pow2(s));
            assert(nearest_even(n, pow2(s)) * (pow2(s) * pow2(k)) == nearest_even(n, pow2(s)) * pow2(s)
                * pow2(k)) by (nonlinear_arith);
        } else {
            assert(s == 0 && t <= k);
            assert(n % 1 == 0);
            vstd::arithmetic::power2::lemma_pow2_adds(t, (k - t) as nat);
            let whole = n * pow2((k - t) as nat);
            assert(shifted == whole * pow2(t)) by (nonlinear_arith)
                requires
                    shifted == n * pow2(k),
                    pow2(k) == pow2(t) * pow2((k - t) as nat),
                    whole == n * pow2((k - t) as nat),
            ;
            lemma_common_factor(whole, 1, pow2(t));
            assert(whole % 1 == 0);
            assert(nearest_even(whole, 1) == whole);
            assert(nearest_even(n, 1) == n);
            assert(n * 1 * pow2(k) == shifted) by (nonlinear_arith)
                requires
                    shifted == n * pow2(k),
            ;
        }
    }
}

/// Scales `x` from a length of `preview` up to a length of `source`.
pub fn scale_position(x: i32, source: u32, preview: u32) -> (r: i32)
    requires
        preview > 0,
    ensures
        r == scaled_position(x as int, source as nat, preview as nat),
{
    proof {
        vstd::arithmetic::power2::lemma2_to64();
        vstd::arithmetic::power2::lemma_pow2_adds(64, 21);
        vstd::arithmetic::power2::lemma_pow2_adds(85, 32);
        vstd::arithmetic::power2::lemma_pow2_adds(32, 21);
        vstd::arithmetic::power2::lemma_pow2_adds(53, 64);
    }
    let magnitude: u128 = if x >= 0 {
        x as u128
    } else {
        (-(x as i64)) as u128
    };
    let unit: u128 = power_of_two(RATIO_BITS);
    let scaled_source: u128 = source as u128 * unit;
    let (m, s): (u128, u32) = round_parts(scaled_source, preview as u128, DOUBLE_BITS);
    proof {
        let q = (scaled_source / preview as u128) as nat;
        assert(q <= scaled_source) by (nonlinear_arith)
            requires
                q == scaled_source as nat / preview as nat,
                preview > 0,
        ;
        lemma_bits_at_most(q, 117);
        assert(s <= 64);
        assert(magnitude * m <= 0x8000_0000 * 0x20_0000_0000_0000) by (nonlinear_arith)
            requires
                magnitude <= 0x8000_0000,
                m <= 0x20_0000_0000_0000,
        ;
    }
    let product: u128 = round_ratio_to(magnitude * m, 1, DOUBLE_BITS);
    proof {
        lemma_round_ratio_at_most_double((magnitude * m) as nat, 1, 53);
        let ratio = length_ratio(source as nat, preview as nat);
        assert(ratio == m * pow2(s as nat));
        assert(magnitude as nat * ratio == (magnitude * m) as nat * pow2(s as nat))
            by (nonlinear_arith)
            requires
                ratio == m * pow2(s as nat),
        ;
        lemma_round_bits_shift((magnitude * m) as nat, s as nat, 53);
        vstd::arithmetic::power2::lemma_pow2_adds((85 - s) as nat, s as nat);
        vstd::arithmetic::power2::lemma_pow2_pos(s as nat);
        vstd::arithmetic::power2::lemma_pow2_pos((85 - s) as nat);
        lemma_common_factor(product as nat, pow2((85 - s) as nat), pow2(s as nat));
    }
    let distance: u128 = divide_half_up(product, power_of_two(RATIO_BITS - s));
    if x >= 0 {
        if distance > 0x7FFF_FFFF {
            i32::MAX
        } else {
            distance as i32
        }
    } else if distance > 0x8000_0000 {
        i32::MIN
    } else {
        (-(distance as i64)) as i32
    }
}

/// Exponent field of a single-precision bit pattern.
pub open spec fn single_exponent(pattern: nat) -> nat {
    pattern / 0x80_0000 % 256
}

/// Significand of a single-precision bit pattern: its magnitude is the significand times
/// `2^(exponent - 150)`.
pub open spec fn single_significand(pattern: nat) -> nat {
    if single_exponent(pattern) == 0 {
        2 * (pattern % 0x80_0000)
    } else {
        0x80_0000 + pattern % 0x80_0000
    }
}

/// Whether a single-precision bit pattern is a finite number above zero.
pub open spec fn positive_single(pattern: nat) -> bool {
    0 < pattern < 0x7F80_0000
}

/// `length` divided by a positive single-precision ratio, rounded to the nearest pixel and
/// saturated at the largest coordinate.
pub open spec fn divided_length(length: nat, ratio: nat) -> nat {
    let exponent = single_exponent(ratio);
    // The quotient in units of `2^(102 - exponent)`.
    let quotient = round_ratio(
        single(length) * pow2(48),
        single_significand(ratio),
        SINGLE_BITS as nat,
    );
    let pixels = if exponent <= 102 {
        quotient * pow2((102 - exponent) as nat)
    } else {
        nearest(quotient, pow2((exponent - 102) as nat))
    };
    if pixels > u32::MAX {
        u32::MAX as nat
    } else {
        pixels
    }
}

/// A ratio with at least `precision` digits rounds to at least `2^(precision - 1)`.
proof fn lemma_round_ratio_at_least(num: nat, den: nat, precision: nat)
    requires
        den > 0,
        precision > 0,
        bits(num / den) >= precision,
    ensures
        round_ratio(num, den, precision) >= pow2((precision - 1) as nat),
{
    broadcast use vstd::arithmetic::power2::lemma_pow2_pos;

    let q = num / den;
    let s = excess(q, precision);
    let unit = pow2(s);
    lemma_bits_bounds(q);
    vstd::arithmetic::power2::lemma_pow2_adds((precision - 1) as nat, s);
    vstd::arithmetic::div_mod::lemma_div_denominator(num as int, den as int, unit as int);
    assert(q / unit >= pow2((precision - 1) as nat)) by {
        vstd::arithmetic::div_mod::lemma_div_by_multiple(
            pow2((precision - 1) as nat) as int,
            unit as int,
        );
        vstd::arithmetic::div_mod::lemma_div_is_ordered(
            (pow2((precision - 1) as nat) * unit) as int,
            q as int,
            unit as int,
        );
    }
    let m = nearest_even(num, den * unit);
    assert(m * unit >= pow2((precision - 1) as nat)) by (nonlinear_arith)
        requires
            m >= pow2((precision - 1) as nat),
            unit >= 1,
    ;
}

/// Divides a length by a positive single-precision ratio given by its bit pattern.
pub fn divide_length(length: u32, ratio: u32) -> (r: u32)
    requires
        length > 0,
        positive_single(ratio as nat),
    ensures
        r == divided_length(length as nat, ratio as nat),
{
    let exponent: u32 = ratio / 0x80_0000;
    let significand: u32 = if exponent == 0 {
        2 * (ratio % 0x80_0000)
    } else {
        0x80_0000 + ratio % 0x80_0000
    };
    proof {
        vstd::arithmetic::power2::lemma2_to64();
        vstd::arithmetic::power2::lemma_pow2_adds(24, 24);
        vstd::arithmetic::power2::lemma_pow2_adds(32, 48);
        lemma_single_range(length as nat, 32);
        assert(single_exponent(ratio as nat) == exponent);
        assert(significand == single_significand(ratio as nat));
        assert(significand > 0);
    }
    let numerator: u128 = to_single(length as u128) * power_of_two(48);
    let quotient: u128 = round_ratio_to(numerator, significand as u128, SINGLE_BITS);
    proof {
        let q = numerator as nat / significand as nat;
        assert(0x100_0000 <= q <= numerator) by (nonlinear_arith)
            requires
                q == numerator as nat / significand as nat,
                0 < significand <= 0x100_0000,
                numerator >= 0x1_0000_0000_0000,
        ;
        lemma_bits_bounds(q);
        if bits(q) < 24 {
            vstd::arithmetic::power2::lemma_pow2_strictly_increases(bits(q), 24);
        }
        lemma_round_ratio_at_most_double(numerator as nat, significand as nat, 24);
        lemma_round_ratio_at_least(numerator as nat, significand as nat, 24);
        assert(quotient >= 0x80_0000);
    }
    if exponent <= 93 {
        proof {
            let shift = (102 - exponent) as nat;
            vstd::arithmetic::power2::lemma_pow2_adds(9, (shift - 9) as nat);
            vstd::arithmetic::power2::lemma_pow2_pos((shift - 9) as nat);
            assert(pow2(shift) >= 512) by (nonlinear_arith)
                requires
                    pow2(shift) == 512 * pow2((shift - 9) as nat),
                    pow2((shift - 9) as nat) >= 1,
            ;
            assert(quotient * pow2(shift) > 0xFFFF_FFFF) by (nonlinear_arith)
                requires
                    quotient >= 0x80_0000,
                    pow2(shift) >= 512,
            ;
        }
        return u32::MAX;
    }
    let pixels: u128 = if exponent <= 102 {
        let factor: u128 = power_of_two(102 - exponent);
        proof {
            if exponent > 94 {
                vstd::arithmetic::power2::lemma_pow2_strictly_increases((102 - exponent) as nat, 8);
            }
            assert(quotient * factor <= 0x4_0000_0000_0000_0000_0000 * 256) by (nonlinear_arith)
                requires
                    quotient <= 0x4_0000_0000_0000_0000_0000,
                    factor <= 256,
            ;
        }
        quotient * factor
    } else if exponent >= 202 {
        proof {
            let shift = (exponent - 102) as nat;
            vstd::arithmetic::power2::lemma_pow2_adds(64, 36);
            vstd::arithmetic::power2::lemma_pow2_adds(32, 4);
            if shift > 100 {
                vstd::arithmetic::power2::lemma_pow2_strictly_increases(100, shift);
            }
            vstd::arithmetic::div_mod::lemma_small_mod(quotient as nat, pow2(shift));
            vstd::arithmetic::div_mod::lemma_basic_div(quotient as int, pow2(shift) as int);
        }
        0
    } else {
        proof {
            vstd::arithmetic::power2::lemma_pow2_pos((exponent - 102) as nat);
        }
        divide_half_up(quotient, power_of_two(exponent - 102))
    };
    if pixels > 0xFFFF_FFFF {
        u32::MAX
    } else {
        pixels as u32
    }
}

/// How far two numbers are apart.
pub open spec fn gap(a: int, b: int) -> int {
    if a < b {
        b - a
    } else {
        a - b
    }
}

/// The nearest integer, however ties are broken, is at most half a unit off.
proof fn lemma_nearest_gap(num: nat, den: nat)
    requires
        den > 0,
    ensures
        2 * gap((nearest_even(num, den) * den) as int, num as int) <= den,
        2 * gap((nearest(num, den) * den) as int, num as int) <= den,
{
    let q = num / den;
    let r = num % den;
    vstd::arithmetic::div_mod::lemma_fundamental_div_mod(num as int, den as int);
    assert(q * den == den * q) by (nonlinear_arith);
    assert((q + 1) * den == den * q + den) by (nonlinear_arith);
}

/// Rounding a ratio of at least `precision` digits changes it by less than one part in
/// `2^precision`.
proof fn lemma_round_ratio_gap(num: nat, den: nat, precision: nat)
    requires
        den > 0,
        precision > 0,
        bits(num / den) >= precision,
    ensures
        pow2(precision) * gap((round_ratio(num, den, precision) * den) as int, num as int) <= num,
{
    broadcast use vstd::arithmetic::power2::lemma_pow2_pos;

    let q = num / den;
    let s = excess(q, precision);
    let unit = pow2(s);
    let wide = den * unit;
    let m = nearest_even(num, wide);
    let half = pow2((precision - 1) as nat);
    lemma_bits_bounds(q);
    vstd::arithmetic::power2::lemma_pow2_adds((precision - 1) as nat, s);
    vstd::arithmetic::power2::lemma_pow2_unfold(precision);
    assert((precision - 1) as nat + s == (bits(q) - 1) as nat);
    assert(half * unit <= q);
    assert(wide > 0) by (nonlinear_arith)
        requires
            wide == den * unit,
            den > 0,
            unit > 0,
    ;
    lemma_nearest_gap(num, wide);
    let off = gap((m * wide) as int, num as int);
    assert(m * unit * den == m * wide) by (nonlinear_arith)
        requires
            wide == den * unit,
    ;
    vstd::arithmetic::div_mod::lemma_fundamental_div_mod(num as int, den as int);
    assert(half * wide <= den * q) by (nonlinear_arith)
        requires
            wide == den * unit,
            half * unit <= q,
    ;
    assert(half * (2 * off) <= half * wide) by (nonlinear_arith)
        requires
            2 * off <= wide,
            half >= 0,
    ;
    assert(half * (2 * off) == pow2(precision) * off) by (nonlinear_arith)
        requires
            pow2(precision) == 2 * half,
    ;
}

/// A value of at most `precision` digits is kept as it is.
proof fn lemma_short_is_exact(n: nat, precision: nat)
    requires
        bits(n) <= precision,
    ensures
        round_bits(n, precision) == n,
{
    vstd::arithmetic::power2::lemma2_to64();
    assert(n / 1 == n && n % 1 == 0);
    assert(excess(n / 1, precision) == 0);
    assert(nearest_even(n, 1) == n);
    assert(1 * pow2(0) == 1 && n * pow2(0) == n);
}

/// A value below `2^precision` is kept as it is.
proof fn lemma_small_is_exact(n: nat, precision: nat)
    requires
        n < pow2(precision),
    ensures
        round_bits(n, precision) == n,
{
    lemma_bits_at_most(n, precision);
    lemma_short_is_exact(n, precision);
}

/// Rounding an integer to `precision` digits changes it by less than one part in
/// `2^precision`.
pub proof fn lemma_round_bits_gap(n: nat, precision: nat)
    requires
        precision > 0,
    ensures
        pow2(precision) * gap(round_bits(n, precision) as int, n as int) <= n,
{
    assert(n / 1 == n);
    if bits(n) >= precision {
        lemma_round_ratio_gap(n, 1, precision);
    } else {
        lemma_short_is_exact(n, precision);
        assert(pow2(precision) * 0 == 0);
    }
}

/// A position on a preview of the source's own size is mapped onto itself.
pub proof fn law_same_size_keeps_positions(x: i32, length: u32)
    requires
        length > 0,
    ensures
        scaled_position(x as int, length as nat, length as nat) == x,
{
    let unit = pow2(RATIO_BITS as nat);
    let magnitude = if x < 0 {
        (-x) as nat
    } else {
        x as nat
    };
    vstd::arithmetic::power2::lemma_pow2_pos(RATIO_BITS as nat);
    // The ratio is exactly one.
    assert(length_ratio(length as nat, length as nat) == unit) by {
        lemma_exact_ratio(unit, length as nat, 53);
        lemma_power_is_exact(RATIO_BITS as nat, 53);
        assert(length * unit == unit * length) by (nonlinear_arith);
    }
    // The product has at most 32 leading digits.
    assert(round_bits(magnitude * unit, 53) == magnitude * unit) by {
        vstd::arithmetic::power2::lemma2_to64();
        vstd::arithmetic::power2::lemma_pow2_adds(32, 21);
        lemma_small_is_exact(magnitude, 53);
        lemma_round_bits_shift(magnitude, RATIO_BITS as nat, 53);
    }
    assert(nearest(magnitude * unit, unit) == magnitude) by {
        vstd::arithmetic::div_mod::lemma_div_by_multiple(magnitude as int, unit as int);
        vstd::arithmetic::div_mod::lemma_mod_multiples_basic(magnitude as int, unit as int);
    }
}

/// A ratio that is an integer is rounded as that integer.
proof fn lemma_exact_ratio(n: nat, den: nat, precision: nat)
    requires
        den > 0,
        precision > 0,
    ensures
        round_ratio(n * den, den, precision) == round_bits(n, precision),
{
    broadcast use vstd::arithmetic::power2::lemma_pow2_pos;

    vstd::arithmetic::div_mod::lemma_div_by_multiple(n as int, den as int);
    let unit = pow2(excess(n, precision));
    assert(n / 1 == n);
    assert(den * unit == unit * den) by (nonlinear_arith);
    lemma_common_factor(n, unit, den);
    assert(1 * unit == unit);
}

/// A power of two needs one digit.
proof fn lemma_power_is_exact(e: nat, precision: nat)
    requires
        precision > 0,
    ensures
        round_bits(pow2(e), precision) == pow2(e),
{
    vstd::arithmetic::power2::lemma2_to64();
    vstd::arithmetic::power2::lemma_pow2_strictly_increases(0, precision);
    lemma_small_is_exact(1, precision);
    lemma_round_bits_shift(1, e, precision);
    assert(1 * pow2(e) == pow2(e));
}

/// A position picked off the preview lands on the same spot of the source: at most half a
/// source pixel off, but for a few millionths of a pixel. A spot within the coordinate range
/// is never cut off, and one beyond it becomes the end of the range on its own side.
pub proof fn law_positions_land_on_the_same_spot(x: i32, source: u32, preview: u32)
    requires
        preview > 0,
    ensures
        ({
            let r = scaled_position(x as int, source as nat, preview as nat);
            &&& i32::MIN < r < i32::MAX ==> gap(r * preview, x * source) < preview
            &&& i32::MIN < r < i32::MAX ==> 0x10_0000 * gap(r * preview, x * source) <= 0x8_0003
                * preview
            &&& -0x7FFF_FFFE * preview <= x * source <= 0x7FFF_FFFE * preview ==> i32::MIN < r
                < i32::MAX
            &&& x * source >= 0x8000_0000 * preview ==> r == i32::MAX
            &&& x * source <= -0x8000_0000 * preview ==> r == i32::MIN
        }),
{
    let magnitude = if x < 0 {
        (-x) as nat
    } else {
        x as nat
    };
    let s = source as int;
    let p = preview as int;
    let d = scaled_distance(magnitude, source as nat, preview as nat);
    let r = scaled_position(x as int, source as nat, preview as nat);
    assert(x * s == if x < 0 {
        -(magnitude * s)
    } else {
        magnitude * s
    }) by (nonlinear_arith)
        requires
            magnitude == if x < 0 {
                -x as int
            } else {
                x as int
            },
    ;
    if d <= 0x8000_0000 || magnitude * source <= 0x8000_0000 * preview {
        lemma_scaled_distance_gap(magnitude, source as nat, preview as nat);
        if x < 0 && i32::MIN < r {
            assert(r * p == -(d * p)) by (nonlinear_arith)
                requires
                    r == -d,
            ;
        }
        if magnitude * s <= 0x7FFF_FFFE * p {
            assert(d < 0x7FFF_FFFF) by (nonlinear_arith)
                requires
                    d * p < magnitude * s + p,
                    magnitude * s <= 0x7FFF_FFFE * p,
                    p > 0,
            ;
        }
        if magnitude * s >= 0x8000_0000 * p {
            assert(d > 0x7FFF_FFFF) by (nonlinear_arith)
                requires
                    d * p > magnitude * s - p,
                    magnitude * s >= 0x8000_0000 * p,
                    p > 0,
            ;
        }
    }
}

/// A distance is scaled to within half a pixel and a few millionths of it.
proof fn lemma_scaled_distance_gap(magnitude: nat, source: nat, preview: nat)
    requires
        0 < preview <= 0xFFFF_FFFF,
        source <= 0xFFFF_FFFF,
        scaled_distance(magnitude, source, preview) <= 0x8000_0000 || magnitude * source
            <= 0x8000_0000 * preview,
    ensures
        gap(
            (scaled_distance(magnitude, source, preview) * preview) as int,
            (magnitude * source) as int,
        ) < preview,
        0x10_0000 * gap(
            (scaled_distance(magnitude, source, preview) * preview) as int,
            (magnitude * source) as int,
        ) <= 0x8_0003 * preview,
{
    broadcast use vstd::arithmetic::power2::lemma_pow2_pos;

    let unit = pow2(RATIO_BITS as nat);
    let ratio = length_ratio(source, preview);
    let n = magnitude * ratio;
    let prod = round_bits(n, 53);
    let d = nearest(prod, unit);
    assert(pow2(53) == 0x20_0000_0000_0000) by {
        vstd::arithmetic::power2::lemma2_to64();
        vstd::arithmetic::power2::lemma_pow2_adds(32, 21);
    }
    // Each rounding, and how far it can be off.
    let e1 = gap((ratio * preview) as int, (source * unit) as int);
    assert(0x20_0000_0000_0000 * e1 <= source * unit) by {
        if source == 0 {
            assert(source * unit == 0) by (nonlinear_arith)
                requires
                    source == 0,
            ;
            lemma_exact_ratio(0, preview, 53);
            lemma_small_is_exact(0, 53);
            assert(0 * preview == 0);
        } else {
            lemma_length_ratio_digits(source, preview);
            lemma_round_ratio_gap(source * unit, preview, 53);
        }
    }
    let e2 = gap(prod as int, n as int);
    lemma_round_bits_gap(n, 53);
    let e3 = gap((d * unit) as int, prod as int);
    lemma_nearest_gap(prod, unit);
    lemma_three_gaps(magnitude, source, preview, unit, ratio, prod, d, e1, e2, e3);
}

/// The ratio of two lengths has at least 53 digits in units of `2^-85`.
proof fn lemma_length_ratio_digits(source: nat, preview: nat)
    requires
        0 < preview <= 0xFFFF_FFFF,
        0 < source,
    ensures
        bits(source * pow2(RATIO_BITS as nat) / preview) >= 53,
{
    let unit = pow2(RATIO_BITS as nat);
    vstd::arithmetic::power2::lemma2_to64();
    vstd::arithmetic::power2::lemma_pow2_adds(32, 53);
    let q = source * unit / preview;
    assert(q >= pow2(53)) by (nonlinear_arith)
        requires
            q == source * unit / preview,
            unit == 0x1_0000_0000 * pow2(53),
            source >= 1,
            0 < preview <= 0x1_0000_0000,
            pow2(53) >= 0,
    ;
    vstd::arithmetic::power2::lemma_pow2_pos(53);
    lemma_bits_bounds(q);
    if bits(q) < 53 {
        vstd::arithmetic::power2::lemma_pow2_strictly_increases(bits(q), 53);
    }
}

/// Three small rounding errors add up to less than a pixel.
proof fn lemma_three_gaps(
    x: nat,
    source: nat,
    preview: nat,
    unit: nat,
    ratio: nat,
    prod: nat,
    d: nat,
    e1: int,
    e2: int,
    e3: int,
)
    requires
        preview > 0,
        unit > 0,
        d <= 0x8000_0000 || x * source <= 0x8000_0000 * preview,
        e1 == gap((ratio * preview) as int, (source * unit) as int),
        e2 == gap(prod as int, (x * ratio) as int),
        e3 == gap((d * unit) as int, prod as int),
        0x20_0000_0000_0000 * e1 <= source * unit,
        0x20_0000_0000_0000 * e2 <= x * ratio,
        2 * e3 <= unit,
    ensures
        gap((d * preview) as int, (x * source) as int) < preview,
        0x10_0000 * gap((d * preview) as int, (x * source) as int) <= 0x8_0003 * preview,
{
    let t: int = 0x20_0000_0000_0000;
    let n = x * ratio;
    let scale = preview * unit;
    assert(scale > 0) by (nonlinear_arith)
        requires
            scale == preview * unit,
            preview > 0,
            unit > 0,
    ;
    // The first error, carried through the product.
    let f1 = x * e1;
    let exact = x * source * unit;
    assert(t * f1 <= exact) by (nonlinear_arith)
        requires
            f1 == x * e1,
            exact == x * source * unit,
            t * e1 <= source * unit,
            x >= 0,
    ;
    let carried = n * preview;
    assert(gap(carried as int, exact as int) == f1) by (nonlinear_arith)
        requires
            carried == x * ratio * preview,
            exact == x * source * unit,
            f1 == x * e1,
            e1 == ratio * preview - source * unit || e1 == source * unit - ratio * preview,
            e1 >= 0,
            x >= 0,
    ;
    // Whichever of the two is within the coordinate range, the other is not far from it.
    if d <= 0x8000_0000 {
        assert(d * unit <= 0x8000_0000 * unit) by (nonlinear_arith)
            requires
                d <= 0x8000_0000,
        ;
        assert(prod <= 0x8000_0001 * unit);
        assert(n <= 2 * prod);
        assert(n <= 0x2_0000_0000 * unit);
        assert(carried <= 0x2_0000_0000 * scale) by (nonlinear_arith)
            requires
                carried == n * preview,
                n <= 0x2_0000_0000 * unit,
                scale == preview * unit,
                preview > 0,
        ;
        assert(exact <= 2 * carried);
    } else {
        assert(exact <= 0x8000_0000 * scale) by (nonlinear_arith)
            requires
                exact == x * source * unit,
                x * source <= 0x8000_0000 * preview,
                scale == preview * unit,
                unit > 0,
        ;
        assert(carried <= 2 * exact);
    }
    assert(carried <= 0x2_0000_0000 * scale);
    assert(t * f1 <= 0x4_0000_0000 * scale);
    // The second one.
    let f2 = preview * e2;
    assert(t * f2 <= carried) by (nonlinear_arith)
        requires
            f2 == preview * e2,
            t * e2 <= n,
            carried == n * preview,
            preview > 0,
    ;
    assert(gap((prod * preview) as int, carried as int) == f2) by (nonlinear_arith)
        requires
            carried == n * preview,
            f2 == preview * e2,
            e2 == prod - n || e2 == n - prod,
            e2 >= 0,
            preview > 0,
    ;
    // The third one.
    let f3 = preview * e3;
    assert(2 * f3 <= scale) by (nonlinear_arith)
        requires
            f3 == preview * e3,
            2 * e3 <= unit,
            scale == preview * unit,
            preview > 0,
    ;
    assert(gap((d * unit * preview) as int, (prod * preview) as int) == f3) by (nonlinear_arith)
        requires
            f3 == preview * e3,
            e3 == d * unit - prod || e3 == prod - d * unit,
            e3 >= 0,
            preview > 0,
    ;
    let total = gap((d * unit * preview) as int, exact as int);
    assert(total <= f1 + f2 + f3);
    assert(0x10_0000 * total <= 0x8_0003 * scale);
    assert(total < scale);
    let a = (d * preview) as int;
    let b = (x * source) as int;
    let off = gap(a, b);
    assert(d * unit * preview == a * unit && x * source * unit == b * unit) by (nonlinear_arith)
        requires
            a == d * preview,
            b == x * source,
    ;
    assert(total == off * unit) by (nonlinear_arith)
        requires
            total == gap(a * unit, b * unit),
            off == gap(a, b),
            unit > 0,
    ;
    assert(off < preview) by (nonlinear_arith)
        requires
            off * unit < preview * unit,
            unit > 0,
    ;
    assert(0x10_0000 * off <= 0x8_0003 * preview) by (nonlinear_arith)
        requires
            0x10_0000 * (off * unit) <= 0x8_0003 * (preview * unit),
            unit > 0,
    ;
}

/// Below the length itself the position of a quotient is found again by rounding.
proof fn lemma_nearest_is(num: nat, den: nat, n: nat)
    requires
        den > 0,
        2 * gap(num as int, (n * den) as int) < den,
    ensures
        nearest(num, den) == n,
{
    lemma_nearest_gap(num, den);
    let r = nearest(num, den);
    if r < n {
        assert(n * den - r * den >= den) by (nonlinear_arith)
            requires
                r + 1 <= n,
                den > 0,
        ;
    } else if n < r {
        assert(r * den - n * den >= den) by (nonlinear_arith)
            requires
                n + 1 <= r,
                den > 0,
        ;
    }
}

/// The quotient of a positive product has at least 24 digits in units of `2^-56`.
proof fn lemma_quotient_digits(product: nat, den: nat)
    requires
        product > 0,
        0 < den <= 0x1_0000_0000,
    ensures
        bits(product * pow2(QUOTIENT_BITS as nat) / den) >= 24,
{
    let unit = pow2(QUOTIENT_BITS as nat);
    vstd::arithmetic::power2::lemma2_to64();
    vstd::arithmetic::power2::lemma_pow2_adds(32, 24);
    let q = product * unit / den;
    assert(q >= 0x100_0000) by (nonlinear_arith)
        requires
            q == product * unit / den,
            unit == 0x1_0000_0000 * 0x100_0000,
            product >= 1,
            0 < den <= 0x1_0000_0000,
    ;
    lemma_bits_bounds(q);
    if bits(q) < 24 {
        vstd::arithmetic::power2::lemma_pow2_strictly_increases(bits(q), 24);
    }
}

/// The single-precision quotient of a coordinate, and how far it is off.
proof fn lemma_quotient_gap(product: nat, den: nat)
    requires
        0 < den <= 0x1_0000_0000,
    ensures
        0x100_0000 * gap(
            (round_ratio(product * pow2(QUOTIENT_BITS as nat), den, 24) * den) as int,
            (product * pow2(QUOTIENT_BITS as nat)) as int,
        ) <= product * pow2(QUOTIENT_BITS as nat),
{
    let unit = pow2(QUOTIENT_BITS as nat);
    vstd::arithmetic::power2::lemma2_to64();
    if product == 0 {
        assert(product * unit == 0) by (nonlinear_arith)
            requires
                product == 0,
        ;
        lemma_exact_ratio(0, den, 24);
        lemma_small_is_exact(0, 24);
        assert(0 * den == 0);
    } else {
        lemma_quotient_digits(product, den);
        lemma_round_ratio_gap(product * unit, den, 24);
    }
}

/// At the resolution it was authored for, a layout coordinate keeps its place.
pub proof fn law_reference_resolution_keeps_the_layout(value: u32, length: u32)
    requires
        length > 0,
        value < 0x40_0000,
    ensures
        scaled_coordinate(value as nat, length as nat, length as nat) == value,
{
    let unit = pow2(QUOTIENT_BITS as nat);
    vstd::arithmetic::power2::lemma_pow2_pos(QUOTIENT_BITS as nat);
    vstd::arithmetic::power2::lemma2_to64();
    lemma_single_range(value as nat, 32);
    lemma_single_range(length as nat, 32);
    let v = value as nat;
    let b = single(length as nat);
    let product = single(v * b);
    lemma_round_bits_gap(v * b, 24);
    let quotient = round_ratio(product * unit, b, 24);
    lemma_quotient_gap(product, b);
    let exact = v * b;
    let scale = exact * unit;
    let e1 = gap(product as int, exact as int);
    let e2 = gap((quotient * b) as int, (product * unit) as int);
    let f1 = e1 * unit;
    assert(0x100_0000 * f1 <= scale) by (nonlinear_arith)
        requires
            f1 == e1 * unit,
            0x100_0000 * e1 <= exact,
            scale == exact * unit,
            unit > 0,
    ;
    assert(gap((product * unit) as int, scale as int) == f1) by (nonlinear_arith)
        requires
            f1 == e1 * unit,
            e1 == gap(product as int, exact as int),
            scale == exact * unit,
            unit > 0,
    ;
    let total = gap((quotient * b) as int, scale as int);
    assert(total <= e2 + f1);
    assert(0x100_0000 * total <= 2 * scale + f1);
    assert(0x1_0000_0000_0000 * total <= 0x200_0001 * scale);
    let off = gap(quotient as int, (v * unit) as int);
    assert(scale == (v * unit) * b) by (nonlinear_arith)
        requires
            scale == v * b * unit,
    ;
    assert(total == off * b) by (nonlinear_arith)
        requires
            total == gap((quotient * b) as int, ((v * unit) * b) as int),
            off == gap(quotient as int, (v * unit) as int),
            b > 0,
    ;
    assert(0x1_0000_0000_0000 * off <= 0x200_0001 * (v * unit)) by (nonlinear_arith)
        requires
            0x1_0000_0000_0000 * (off * b) <= 0x200_0001 * ((v * unit) * b),
            b > 0,
    ;
    assert(v * unit <= 0x3F_FFFF * unit) by (nonlinear_arith)
        requires
            v <= 0x3F_FFFF,
            unit > 0,
    ;
    assert(2 * off < unit);
    lemma_nearest_is(quotient, unit, v);
}

/// Layout coordinates are scaled in proportion: up to half a pixel, and one part in two
/// million, the result is `value * to / from`, as long as that is a coordinate. It is never
/// larger by more than that.
pub proof fn law_layout_scales_in_proportion(value: u32, to: u32, from: u32)
    requires
        from > 0,
    ensures
        ({
            let r = scaled_coordinate(value as nat, to as nat, from as nat);
            &&& r < u32::MAX ==> 0x20_0000 * gap(r * from, value * to) <= 0x10_0000 * from + value
                * to
            &&& 0x20_0000 * (r * from - value * to) <= 0x10_0000 * from + value * to
        }),
{
    let unit = pow2(QUOTIENT_BITS as nat);
    vstd::arithmetic::power2::lemma_pow2_pos(QUOTIENT_BITS as nat);
    vstd::arithmetic::power2::lemma2_to64();
    lemma_single_range(value as nat, 32);
    lemma_single_range(to as nat, 32);
    lemma_single_range(from as nat, 32);
    let a = single(value as nat);
    let b = single(to as nat);
    let product = single(a * b);
    let den = single(from as nat);
    let quotient = round_ratio(product * unit, den, 24);
    lemma_round_bits_gap(value as nat, 24);
    lemma_round_bits_gap(to as nat, 24);
    lemma_round_bits_gap(from as nat, 24);
    lemma_round_bits_gap(a * b, 24);
    lemma_quotient_gap(product, den);
    lemma_nearest_gap(quotient, unit);
    lemma_product_gap(value as nat, to as nat, a, b, product);
    lemma_position_gap(
        (value * to) as nat,
        from as nat,
        product,
        den,
        unit,
        quotient,
        nearest(quotient, unit),
    );
    let r = scaled_coordinate(value as nat, to as nat, from as nat);
    let pixel = nearest(quotient, unit);
    assert(r * from <= pixel * from) by (nonlinear_arith)
        requires
            r <= pixel,
            from > 0,
    ;
}

/// Rounding both factors and their product changes it by less than four parts in `2^24`.
proof fn lemma_product_gap(value: nat, to: nat, a: nat, b: nat, product: nat)
    requires
        0x100_0000 * gap(a as int, value as int) <= value,
        0x100_0000 * gap(b as int, to as int) <= to,
        0x100_0000 * gap(product as int, (a * b) as int) <= a * b,
    ensures
        0x100_0000 * gap(product as int, (value * to) as int) <= 4 * (value * to),
{
    let w: int = 0x100_0000;
    let exact = value * to;
    let e1 = gap(a as int, value as int);
    let e2 = gap(b as int, to as int);
    let f1 = e1 * b;
    let f2 = value * e2;
    assert(gap((a * b) as int, (value * b) as int) == f1) by (nonlinear_arith)
        requires
            f1 == e1 * b,
            e1 == gap(a as int, value as int),
            b >= 0,
    ;
    assert(gap((value * b) as int, exact as int) == f2) by (nonlinear_arith)
        requires
            f2 == value * e2,
            e2 == gap(b as int, to as int),
            exact == value * to,
            value >= 0,
    ;
    assert(w * f1 <= value * b) by (nonlinear_arith)
        requires
            f1 == e1 * b,
            w * e1 <= value,
            b >= 0,
    ;
    assert(w * f2 <= exact) by (nonlinear_arith)
        requires
            f2 == value * e2,
            w * e2 <= to,
            exact == value * to,
            value >= 0,
    ;
    assert(0 <= exact) by (nonlinear_arith)
        requires
            exact == value * to,
    ;
    assert(value * b <= exact + f2);
    assert(a * b <= exact + f1 + f2);
}

/// Carries a rounded product through the quotient to the nearest pixel.
proof fn lemma_position_gap(
    exact: nat,
    from: nat,
    product: nat,
    den: nat,
    unit: nat,
    quotient: nat,
    r: nat,
)
    requires
        unit > 0,
        0x100_0000 * gap(product as int, exact as int) <= 4 * exact,
        0x100_0000 * gap(den as int, from as int) <= from,
        0x100_0000 * gap((quotient * den) as int, (product * unit) as int) <= product * unit,
        2 * gap((r * unit) as int, quotient as int) <= unit,
    ensures
        0x20_0000 * gap((r * from) as int, exact as int) <= 0x10_0000 * from + exact,
{
    let w: int = 0x100_0000;
    let scale = exact * unit;
    let e1 = gap(product as int, exact as int);
    let f1 = e1 * unit;
    assert(gap((product * unit) as int, scale as int) == f1) by (nonlinear_arith)
        requires
            f1 == e1 * unit,
            e1 == gap(product as int, exact as int),
            scale == exact * unit,
            unit > 0,
    ;
    assert(w * f1 <= 4 * scale) by (nonlinear_arith)
        requires
            f1 == e1 * unit,
            w * e1 <= 4 * exact,
            scale == exact * unit,
            unit > 0,
    ;
    assert(w * gap((quotient * den) as int, scale as int) <= 6 * scale);
    // The denominator.
    let e3 = gap(den as int, from as int);
    let f3 = quotient * e3;
    assert(gap((quotient * from) as int, (quotient * den) as int) == f3) by (nonlinear_arith)
        requires
            f3 == quotient * e3,
            e3 == gap(den as int, from as int),
            quotient >= 0,
    ;
    assert(w * f3 <= quotient * from) by (nonlinear_arith)
        requires
            f3 == quotient * e3,
            w * e3 <= from,
            quotient >= 0,
    ;
    assert(quotient * from <= 2 * scale);
    let f4 = gap((quotient * from) as int, scale as int);
    assert(w * f4 <= 8 * scale);
    // The pixel.
    let e5 = gap((r * unit) as int, quotient as int);
    let f5 = e5 * from;
    assert(gap((r * unit * from) as int, (quotient * from) as int) == f5) by (nonlinear_arith)
        requires
            f5 == e5 * from,
            e5 == gap((r * unit) as int, quotient as int),
            from >= 0,
    ;
    assert(2 * f5 <= unit * from) by (nonlinear_arith)
        requires
            f5 == e5 * from,
            2 * e5 <= unit,
            from >= 0,
    ;
    let total = gap((r * unit * from) as int, scale as int);
    assert(0x20_0000 * total <= 0x10_0000 * (unit * from) + scale);
    let off = gap((r * from) as int, exact as int);
    assert(r * unit * from == (r * from) * unit) by (nonlinear_arith);
    assert(total == off * unit) by (nonlinear_arith)
        requires
            total == gap(((r * from) * unit) as int, (exact * unit) as int),
            off == gap((r * from) as int, exact as int),
            unit > 0,
    ;
    assert(0x20_0000 * off <= 0x10_0000 * from + exact) by (nonlinear_arith)
        requires
            0x20_0000 * (off * unit) <= 0x10_0000 * (unit * from) + exact * unit,
            unit > 0,
    ;
}

/// A length divided by a ratio from one half to eight is rounded to the nearest pixel, up to
/// three parts in sixteen million: times the ratio it is the length again. The ratio's value is
/// `scaled / 2^24`, its significand shifted by its exponent.
pub proof fn law_lengths_are_divided_by_the_ratio(length: u32, ratio: u32, scaled: nat)
    requires
        0x3F00_0000 <= ratio <= 0x4100_0000,
        scaled == (0x80_0000 + ratio % 0x80_0000) * pow2((ratio / 0x80_0000 - 126) as nat),
    ensures
        ({
            let r = divided_length(length as nat, ratio as nat);
            r < u32::MAX ==> 2 * gap((r * scaled) as int, length * 0x100_0000) <= scaled + 6
                * length
        }),
{
    broadcast use vstd::arithmetic::power2::lemma_pow2_pos;

    let n = length as nat;
    let exponent = single_exponent(ratio as nat);
    assert(126 <= exponent <= 130 && exponent == ratio / 0x80_0000);
    let significand = single_significand(ratio as nat);
    vstd::arithmetic::power2::lemma2_to64();
    assert(pow2(48) == 0x1_0000_0000_0000) by {
        vstd::arithmetic::power2::lemma_pow2_adds(32, 16);
    }
    let shift = pow2((exponent - 126) as nat);
    let unit = pow2((exponent - 102) as nat);
    assert(unit == shift * 0x100_0000) by {
        vstd::arithmetic::power2::lemma_pow2_adds((exponent - 126) as nat, 24);
    }
    let whole = single(n);
    let quotient = round_ratio(whole * pow2(48), significand, 24);
    let r = nearest(quotient, unit);
    lemma_round_bits_gap(n, 24);
    lemma_nearest_gap(quotient, unit);
    assert(0x100_0000 * gap((quotient * significand) as int, (whole * pow2(48)) as int) <= whole
        * pow2(48)) by {
        if n == 0 {
            lemma_small_is_exact(0, 24);
            lemma_exact_ratio(0, significand, 24);
            assert(0 * significand == 0);
        } else {
            let q = whole * pow2(48) / significand;
            assert(q >= 0x100_0000) by (nonlinear_arith)
                requires
                    q == whole * 0x1_0000_0000_0000 / significand,
                    whole >= 1,
                    0 < significand < 0x100_0000,
            ;
            lemma_bits_bounds(q);
            if bits(q) < 24 {
                vstd::arithmetic::power2::lemma_pow2_strictly_increases(bits(q), 24);
            }
            lemma_round_ratio_gap(whole * pow2(48), significand, 24);
        }
    }
    // Half a pixel, carried through the ratio.
    let carried = r * unit * significand;
    assert(carried == r * scaled * 0x100_0000) by (nonlinear_arith)
        requires
            carried == r * unit * significand,
            unit == shift * 0x100_0000,
            scaled == significand * shift,
    ;
    assert(2 * gap(carried as int, (quotient * significand) as int) <= scaled * 0x100_0000)
        by (nonlinear_arith)
        requires
            carried == r * unit * significand,
            2 * gap((r * unit) as int, quotient as int) <= unit,
            unit == shift * 0x100_0000,
            scaled == significand * shift,
            significand >= 0,
    ;
    assert(whole <= 2 * n);
    assert(2 * gap(carried as int, (n * 0x1_0000_0000_0000) as int) <= scaled * 0x100_0000 + 6 * n
        * 0x100_0000);
}

} // verus!
