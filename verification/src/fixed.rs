//! Fixed-point arithmetic. Every physical quantity in the cluster is an
//! integer count of millionths of its unit, so 12.5 km/h is `12_500_000`.
//!
//! Where a quantity is cut or rounded to be shown or sent, that goes by single
//! precision: by the nearest number of 24 significant bits. Such numbers are
//! held as integers, too, in units of 2^-43.

use vstd::arithmetic::div_mod::{lemma_div_multiples_vanish, lemma_mod_multiples_basic};
use vstd::arithmetic::power2::{
    lemma2_to64, lemma_pow2_adds, lemma_pow2_pos, lemma_pow2_strictly_increases, lemma_pow2_unfold,
    pow2,
};
use vstd::prelude::*;

verus! {

/// A physical quantity in millionths of its unit.
pub type Micro = i64;

/// One whole unit, in millionths.
pub const ONE: i64 = 1_000_000;

/// One whole unit, in units of 2^-43.
pub const SINGLE_UNIT: i128 = 0x800_0000_0000;

/// The largest magnitude `div_nearest` divides.
pub const WIDEST: i128 = 0x1000_0000_0000_0000_0000_0000_0000_0000;

/// `n / d` rounded to the nearest integer, halves away from zero.
pub open spec fn div_round(n: int, d: int) -> int {
    if n >= 0 {
        (n + d / 2) / d
    } else {
        -((-n + d / 2) / d)
    }
}

/// `n / d`, for `n` that is not negative, rounded to the nearest integer; of two
/// that are equally near the even one.
pub open spec fn div_even(n: int, d: int) -> int {
    let q = n / d;
    let r = n % d;
    if 2 * r > d || (2 * r == d && q % 2 == 1) {
        q + 1
    } else {
        q
    }
}

/// `n` brought into `lo..=hi`.
pub open spec fn clamped(n: int, lo: int, hi: int) -> int {
    if n < lo {
        lo
    } else if n > hi {
        hi
    } else {
        n
    }
}

/// `n` brought into the range of a quantity.
pub open spec fn as_micro(n: int) -> Micro {
    clamped(n, i64::MIN as int, i64::MAX as int) as i64
}

/// The whole units in `n` millionths as a `u32`: the fraction is dropped,
/// negative values give zero and large ones the largest `u32`.
pub open spec fn whole_units(n: int) -> u32 {
    clamped(n / 1_000_000, 0, u32::MAX as int) as u32
}

/// How far the single-precision numbers (24 significant bits) around `n`
/// millionths are apart, in units of 2^-43, if that is at least `u`. No quantity
/// but zero is so small that a finer unit is needed.
pub open spec fn spacing(n: int, u: int) -> int
    decreases 1_048_576 * n - 1_000_000 * u,
{
    // n / 10^6 < 2^24 * u / 2^43
    if u <= 0 || 524_288 * n < 1_000_000 * u {
        u
    } else {
        spacing(n, 2 * u)
    }
}

/// The single-precision number nearest to `n` millionths, in units of 2^-43; of
/// two that are equally near the even one.
pub open spec fn single(n: int) -> int {
    let u = spacing(n, 1);
    u * div_even(n * SINGLE_UNIT, 1_000_000 * u)
}

/// How far the numbers of 24 significant bits around `x` are apart, if that is
/// at least `u`.
pub open spec fn gap(x: int, u: int) -> int
    decreases 2 * x - 16_777_216 * u,
{
    if u <= 0 || x < 16_777_216 * u {
        u
    } else {
        gap(x, 2 * u)
    }
}

/// `x`, which is not negative, to 24 significant bits; of two that are equally
/// near the even one.
pub open spec fn held(x: int) -> int {
    let u = gap(x, 1);
    u * div_even(x, u)
}

/// `k` times `n` millionths, neither of them negative, in single precision and
/// in units of 2^-43.
pub open spec fn product(n: int, k: int) -> int {
    held(k * single(n))
}

/// `k` times `n` millionths in single precision, to the nearest integer, halves
/// away from zero.
pub open spec fn rounded_product(n: int, k: int) -> int {
    if n >= 0 {
        div_round(product(n, k), SINGLE_UNIT as int)
    } else {
        -div_round(product(-n, k), SINGLE_UNIT as int)
    }
}

/// Division to the nearest integer, halves away from zero.
pub fn div_nearest(n: i128, d: i128) -> (q: i128)
    requires
        0 < d <= WIDEST,
        -WIDEST <= n <= WIDEST,
    ensures
        q == div_round(n as int, d as int),
{
    if n >= 0 {
        (n + d / 2) / d
    } else {
        -((-n + d / 2) / d)
    }
}

/// Division to the nearest integer, halves to the even one.
pub fn div_half_even(n: i128, d: i128) -> (q: i128)
    requires
        0 <= n <= WIDEST,
        0 < d <= WIDEST,
    ensures
        q == div_even(n as int, d as int),
        0 <= q <= n / d + 1,
{
    let q: i128 = n / d;
    let r: i128 = n % d;
    proof {
        assert(n as int / d as int <= n) by (nonlinear_arith)
            requires
                0 <= n,
                0 < d,
        ;
    }
    if 2 * r > d || (2 * r == d && q % 2 == 1) {
        q + 1
    } else {
        q
    }
}

/// The single-precision number nearest to `n` millionths, in units of 2^-43.
pub fn to_single(n: u64) -> (s: i128)
    ensures
        s == single(n as int),
        0 <= s <= 0x400_0000_0000_0000_0000_0000,
{
    let n: i128 = n as i128;
    let mut u: i128 = 1;
    while 524_288 * n >= 1_000_000 * u
        invariant
            0 <= n <= u64::MAX,
            u == 1 || 1_000_000 * u <= 1_048_576 * n,
            1 <= u,
            spacing(n as int, u as int) == spacing(n as int, 1),
        decreases 1_048_576 * n - 1_000_000 * u,
    {
        u = 2 * u;
    }
    let d: i128 = 1_000_000 * u;
    let wide: i128 = n * SINGLE_UNIT;
    let m: i128 = div_half_even(wide, d);
    proof {
        assert(wide as int / d as int <= 0x100_0000) by (nonlinear_arith)
            requires
                0 <= wide < 0x100_0000 * d,
                0 < d,
        ;
        assert(0 <= u * m <= 0x2_0000_0000_0000_0000 * 0x100_0001) by (nonlinear_arith)
            requires
                0 <= u <= 0x2_0000_0000_0000_0000,
                0 <= m <= 0x100_0001,
        ;
    }
    u * m
}

/// `n` if it fits a quantity, else the nearest that does.
pub fn saturate(n: i128) -> (q: Micro)
    ensures
        q == as_micro(n as int),
{
    if n < -0x8000_0000_0000_0000i128 {
        i64::MIN
    } else if n > 0x7fff_ffff_ffff_ffffi128 {
        i64::MAX
    } else {
        n as i64
    }
}

/// The whole units in `n` millionths, saturating at the range of `u32`.
pub fn whole(n: i128) -> (q: u32)
    ensures
        q == whole_units(n as int),
{
    if n < 0 {
        0
    } else {
        let u: i128 = n / 1_000_000;
        if u > 0xffff_ffff {
            u32::MAX
        } else {
            u as u32
        }
    }
}

/// `k` times `n` millionths in single precision, in units of 2^-43.
pub fn multiply(n: u64, k: i64) -> (p: i128)
    requires
        0 <= k <= 1_000,
    ensures
        p == product(n as int, k as int),
        0 <= p <= 0x400_0000_0000_0000_0000_0000_0000,
{
    let s: i128 = to_single(n);
    proof {
        assert(0 <= k * s <= 1_000 * 0x400_0000_0000_0000_0000_0000) by (nonlinear_arith)
            requires
                0 <= k <= 1_000,
                0 <= s <= 0x400_0000_0000_0000_0000_0000,
        ;
    }
    let x: i128 = k as i128 * s;
    let mut u: i128 = 1;
    while x >= 16_777_216 * u
        invariant
            0 <= x <= 1_000 * 0x400_0000_0000_0000_0000_0000,
            u == 1 || 16_777_216 * u <= 2 * x,
            1 <= u,
            gap(x as int, u as int) == gap(x as int, 1),
        decreases 2 * x - 16_777_216 * u,
    {
        u = 2 * u;
    }
    let m: i128 = div_half_even(x, u);
    proof {
        assert(x as int / u as int <= 0x100_0000) by (nonlinear_arith)
            requires
                0 <= x < 0x100_0000 * u,
                0 < u,
        ;
        assert(0 <= u * m <= 0x4000_0000_0000_0000_0000 * 0x100_0001) by (nonlinear_arith)
            requires
                0 <= u <= 0x4000_0000_0000_0000_0000,
                0 <= m <= 0x100_0001,
        ;
    }
    u * m
}

/// Scale a physical value by `k` into an integer field, saturating at `lo..=hi`.
pub fn quant(v: Micro, k: i64, lo: i64, hi: i64) -> (q: i64)
    requires
        0 <= k <= 1_000,
        lo <= hi,
    ensures
        q == clamped(rounded_product(v as int, k as int), lo as int, hi as int),
{
    let size: i128 = if v < 0 { -(v as i128) } else { v as i128 };
    let p: i128 = div_nearest(multiply(size as u64, k), SINGLE_UNIT);
    let n: i128 = if v < 0 { -p } else { p };
    if n < lo as i128 {
        lo
    } else if n > hi as i128 {
        hi
    } else {
        n as i64
    }
}

/// Rounded division is off by at most half a divisor.
pub proof fn rounding_is_nearest(n: int, d: int)
    requires
        d > 0,
    ensures
        2 * (n - d * div_round(n, d)) <= d,
        2 * (d * div_round(n, d) - n) <= d,
{
    let m = if n >= 0 { n } else { -n };
    let h = d / 2;
    let q = (m + h) / d;
    assert(0 <= m + h - d * q < d) by (nonlinear_arith)
        requires
            q == (m + h) / d,
            d > 0,
    ;
    assert(d * -q == -(d * q)) by (nonlinear_arith);
}

/// Rounded division is exact on a multiple of the divisor.
pub proof fn rounding_is_exact_on_multiples(k: int, d: int)
    requires
        d > 0,
    ensures
        div_round(k * d, d) == k,
{
    rounding_is_nearest(k * d, d);
    let q = div_round(k * d, d);
    assert(k == q) by (nonlinear_arith)
        requires
            2 * (k * d - d * q) <= d,
            2 * (d * q - k * d) <= d,
            d > 0,
    ;
}

/// Division to the even one of two is off by at most half a divisor.
pub proof fn rounding_to_even_is_nearest(n: int, d: int)
    requires
        n >= 0,
        d > 0,
    ensures
        2 * (n - d * div_even(n, d)) <= d,
        2 * (d * div_even(n, d) - n) <= d,
{
    let q = n / d;
    assert(n == d * q + n % d && 0 <= n % d < d) by (nonlinear_arith)
        requires
            q == n / d,
            d > 0,
    ;
    assert(d * (q + 1) == d * q + d) by (nonlinear_arith);
}

/// The spacing of single-precision numbers is a power of two, and it is as fine
/// as 24 bits allow.
proof fn spacing_is_a_power(n: int, e: nat, most: nat)
    requires
        n >= 0,
        e <= most,
        524_288 * n < 1_000_000 * pow2(most),
    ensures
        exists|k: nat| e <= k <= most && #[trigger] pow2(k) == spacing(n, pow2(e) as int),
    decreases most - e,
{
    lemma_pow2_pos(e);
    if 524_288 * n >= 1_000_000 * pow2(e) {
        lemma_pow2_unfold((e + 1) as nat);
        spacing_is_a_power(n, e + 1, most);
        let k = choose|k: nat|
            e + 1 <= k <= most && #[trigger] pow2(k) == spacing(n, pow2((e + 1) as nat) as int);
        assert(pow2(k) == spacing(n, pow2(e) as int));
    } else {
        assert(pow2(e) == spacing(n, pow2(e) as int));
    }
}

/// Single precision holds every whole number below 2^24 as it is.
pub proof fn whole_numbers_are_single(k: int)
    requires
        0 <= k < 0x100_0000,
    ensures
        single(1_000_000 * k) == k * SINGLE_UNIT,
{
    let n = 1_000_000 * k;
    lemma2_to64();
    lemma_pow2_adds(32, 11);
    assert(pow2(43) == 0x800_0000_0000);
    spacing_is_a_power(n, 0, 43);
    let e = choose|e: nat| 0 <= e <= 43 && #[trigger] pow2(e) == spacing(n, pow2(0) as int);
    let u = pow2(e) as int;
    let w = pow2((43 - e) as nat) as int;
    lemma_pow2_pos(e);
    lemma_pow2_adds(e, (43 - e) as nat);
    assert(u * w == SINGLE_UNIT);
    let d = 1_000_000 * u;
    assert(n * SINGLE_UNIT == d * (k * w)) by (nonlinear_arith)
        requires
            n == 1_000_000 * k,
            d == 1_000_000 * u,
            u * w == SINGLE_UNIT,
    ;
    assert((d * (k * w)) / d == k * w && (d * (k * w)) % d == 0) by {
        lemma_div_multiples_vanish(k * w, d);
        lemma_mod_multiples_basic(k * w, d);
        assert(d * (k * w) == (k * w) * d) by (nonlinear_arith);
    }
    assert(div_even(n * SINGLE_UNIT, d) == k * w);
    assert(u * (k * w) == k * SINGLE_UNIT) by (nonlinear_arith)
        requires
            u * w == SINGLE_UNIT,
    ;
}

/// The nearest single-precision number is off by at most half of how far they
/// are apart.
pub proof fn a_single_is_near(n: int)
    requires
        n >= 0,
    ensures
        2 * (1_000_000 * single(n) - n * SINGLE_UNIT) <= 1_000_000 * spacing(n, 1),
        2 * (n * SINGLE_UNIT - 1_000_000 * single(n)) <= 1_000_000 * spacing(n, 1),
{
    spacing_in_proportion(n, 1);
    let u = spacing(n, 1);
    let d = 1_000_000 * u;
    let m = div_even(n * SINGLE_UNIT, d);
    rounding_to_even_is_nearest(n * SINGLE_UNIT, d);
    assert(1_000_000 * (u * m) == d * m) by (nonlinear_arith)
        requires
            d == 1_000_000 * u,
    ;
}

/// How coarse single precision is around `n` millionths.
pub proof fn spacing_in_proportion(n: int, u: int)
    requires
        u > 0,
    ensures
        spacing(n, u) > 0,
        spacing(n, u) == u || 1_000_000 * spacing(n, u) <= 1_048_576 * n,
    decreases 1_048_576 * n - 1_000_000 * u,
{
    if 524_288 * n >= 1_000_000 * u {
        spacing_in_proportion(n, 2 * u);
    }
}

/// How coarse 24 bits are around `x`.
proof fn gap_in_proportion(x: int, u: int)
    requires
        u > 0,
    ensures
        gap(x, u) > 0,
        gap(x, u) == u || 16_777_216 * gap(x, u) <= 2 * x,
    decreases 2 * x - 16_777_216 * u,
{
    if x >= 16_777_216 * u {
        gap_in_proportion(x, 2 * u);
    }
}

/// Twenty-four bits are off by at most half of how coarse they are.
proof fn held_is_near(x: int)
    requires
        x >= 0,
    ensures
        2 * (held(x) - x) <= gap(x, 1),
        2 * (x - held(x)) <= gap(x, 1),
{
    gap_in_proportion(x, 1);
    rounding_to_even_is_nearest(x, gap(x, 1));
}

/// Whether `k` units are `step` millionths each, for the sizes that are used.
pub open spec fn per_unit(k: int, step: int) -> bool {
    ||| k == 1 && step == 1_000_000
    ||| k == 10 && step == 100_000
    ||| k == 100 && step == 10_000
    ||| k == 1_000 && step == 1_000
}

/// What single precision leaves out of a product is less than a four-millionth
/// part of it, or less than a millionth of a unit.
pub proof fn a_product_is_near(n: int, k: int, step: int)
    requires
        n >= 0,
        per_unit(k, step),
    ensures
        step * product(n, k) - n * SINGLE_UNIT < SINGLE_UNIT * (n / 4_194_304 + 1),
        n * SINGLE_UNIT - step * product(n, k) < SINGLE_UNIT * (n / 4_194_304 + 1),
        product(n, k) >= 0,
{
    let s = single(n);
    let x = k * s;
    let y = product(n, k);
    a_single_is_near(n);
    spacing_in_proportion(n, 1);
    assert(s >= 0) by {
        let u = spacing(n, 1);
        let d = 1_000_000 * u;
        not_below_zero(n * SINGLE_UNIT, d);
        assert(u * div_even(n * SINGLE_UNIT, d) >= 0) by (nonlinear_arith)
            requires
                u > 0,
                div_even(n * SINGLE_UNIT, d) >= 0,
        ;
    }
    assert(x >= 0) by (nonlinear_arith)
        requires
            x == k * s,
            k > 0,
            s >= 0,
    ;
    gap_in_proportion(x, 1);
    held_is_near(x);
    assert(y >= 0) by {
        let u = gap(x, 1);
        not_below_zero(x, u);
        assert(u * div_even(x, u) >= 0) by (nonlinear_arith)
            requires
                u > 0,
                div_even(x, u) >= 0,
        ;
    }
    if k == 1 {
        assert(x == s);
    } else if k == 10 {
        assert(x == 10 * s);
    } else if k == 100 {
        assert(x == 100 * s);
    } else {
        assert(x == 1_000 * s);
    }
}

/// A quantity counted in steps is off by at most half a step and what single
/// precision leaves out, less than a four-millionth part.
pub proof fn counting_steps_is_near(n: int, k: int, step: int)
    requires
        n >= 0,
        per_unit(k, step),
    ensures
        step * rounded_product(n, k) - n <= step / 2 + n / 4_194_304,
        n - step * rounded_product(n, k) <= step / 2 + n / 4_194_304,
        rounded_product(n, k) >= 0,
{
    a_product_is_near(n, k, step);
    rounding_is_nearest(product(n, k), SINGLE_UNIT as int);
}

/// Single precision holds no negative number for one that is not negative.
pub proof fn single_is_not_negative(n: int)
    requires
        n >= 0,
    ensures
        single(n) >= 0,
{
    spacing_in_proportion(n, 1);
    let u = spacing(n, 1);
    let d = 1_000_000 * u;
    not_below_zero(n * SINGLE_UNIT, d);
    assert(u * div_even(n * SINGLE_UNIT, d) >= 0) by (nonlinear_arith)
        requires
            u > 0,
            div_even(n * SINGLE_UNIT, d) >= 0,
    ;
}

proof fn not_below_zero(n: int, d: int)
    requires
        n >= 0,
        d > 0,
    ensures
        div_even(n, d) >= 0,
{
    assert(n / d >= 0) by (nonlinear_arith)
        requires
            n >= 0,
            d > 0,
    ;
}

/// A whole number of steps below 2^21 is counted exactly.
pub proof fn counting_whole_steps_is_exact(f: int, k: int, step: int)
    requires
        -0x20_0000 < f < 0x20_0000,
        per_unit(k, step),
    ensures
        rounded_product(step * f, k) == f,
{
    let size = if f < 0 {
        -f
    } else {
        f
    };
    let n = step * size;
    counting_steps_is_near(n, k, step);
    let q = rounded_product(n, k);
    if k == 1 {
        assert(n == 1_000_000 * size && q == size);
    } else if k == 10 {
        assert(n == 100_000 * size && q == size);
    } else if k == 100 {
        assert(n == 10_000 * size && q == size);
    } else {
        assert(n == 1_000 * size && q == size);
    }
    assert(f < 0 ==> step * f == -n) by (nonlinear_arith)
        requires
            n == step * size,
            f < 0 ==> size == -f,
    ;
    assert(step * size > 0 <==> size > 0) by (nonlinear_arith)
        requires
            step > 0,
            size >= 0,
    ;
}

/// Whole tenths below 2^19 units are counted exactly.
proof fn counting_short_tenths_is_exact(f: int)
    requires
        0 <= f < 5_242_880,
    ensures
        rounded_product(100_000 * f, 10) == f,
{
    let n = 100_000 * f;
    let s = single(n);
    let x = 10 * s;
    lemma2_to64();
    lemma_pow2_adds(32, 6);
    assert(pow2(38) == 0x40_0000_0000);
    spacing_is_a_power(n, 0, 38);
    let e = choose|e: nat| 0 <= e <= 38 && #[trigger] pow2(e) == spacing(n, pow2(0) as int);
    if e < 38 {
        lemma_pow2_strictly_increases(e, 38);
    }
    a_single_is_near(n);
    let u = spacing(n, 1);
    assert(1 <= u <= 0x40_0000_0000) by {
        spacing_in_proportion(n, 1);
    }
    assert(s >= 0);
    gap_in_proportion(x, 1);
    held_is_near(x);
    rounding_is_nearest(held(x), SINGLE_UNIT as int);
}

/// The spacing at a size that it fits.
proof fn spacing_is(n: int, e: nat, k: nat)
    requires
        e <= k,
        524_288 * n < 1_000_000 * pow2(k),
        1_000_000 * pow2(k) <= 1_048_576 * n,
    ensures
        spacing(n, pow2(e) as int) == pow2(k),
    decreases k - e,
{
    lemma_pow2_pos(e);
    if e < k {
        lemma_pow2_unfold((e + 1) as nat);
        if e + 1 < k {
            lemma_pow2_strictly_increases((e + 1) as nat, k);
        }
        spacing_is(n, e + 1, k);
    }
}

/// The gap at a size that it fits.
proof fn gap_is(x: int, e: nat, k: nat)
    requires
        e <= k,
        8_388_608 * pow2(k) <= x < 16_777_216 * pow2(k),
    ensures
        gap(x, pow2(e) as int) == pow2(k),
    decreases k - e,
{
    lemma_pow2_pos(e);
    if e < k {
        lemma_pow2_unfold((e + 1) as nat);
        if e + 1 < k {
            lemma_pow2_strictly_increases((e + 1) as nat, k);
        }
        gap_is(x, e + 1, k);
    }
}

/// Tenths to the nearest sixteenth, and that ten times, are off by a quarter at
/// most.
proof fn tenths_in_sixteenths(f: int)
    requires
        f >= 0,
    ensures
        -4 <= 10 * div_even(16 * f, 10) - 16 * f <= 4,
{
    let a = f / 10;
    let r = f % 10;
    assert(16 * f == 10 * (16 * a) + 16 * r);
}

/// Whole tenths from 2^19 up to 2^20 units are counted exactly.
proof fn counting_long_tenths_is_exact(f: int)
    requires
        5_242_880 <= f < 10_485_760,
    ensures
        rounded_product(100_000 * f, 10) == f,
{
    let n = 100_000 * f;
    lemma2_to64();
    lemma_pow2_adds(32, 7);
    lemma_pow2_adds(32, 10);
    lemma_pow2_adds(32, 11);
    assert(pow2(39) == 0x80_0000_0000);
    assert(pow2(42) == 0x400_0000_0000);
    assert(pow2(43) == 0x800_0000_0000);
    spacing_is(n, 0, 39);
    let m = div_even(16 * f, 10);
    tenths_in_sixteenths(f);
    assert(n * SINGLE_UNIT == 16 * f * 54_975_581_388_800_000);
    assert(div_even(n * SINGLE_UNIT, 549_755_813_888_000_000) == m);
    let x = 10 * (0x80_0000_0000 * m);
    assert(10 * single(n) == x);
    // The gap is half a unit or a whole one; x is 10 m / 8 or 10 m / 16 gaps.
    if x < 8_388_608 * SINGLE_UNIT {
        gap_is(x, 0, 42);
        assert(div_even(x, 0x400_0000_0000) == div_even(10 * m, 8));
        assert(held(x) == 0x400_0000_0000 * div_even(10 * m, 8));
        assert(div_even(10 * m, 8) == 2 * f);
    } else {
        gap_is(x, 0, 43);
        assert(div_even(x, 0x800_0000_0000) == div_even(10 * m, 16));
        assert(held(x) == 0x800_0000_0000 * div_even(10 * m, 16));
        assert(div_even(10 * m, 16) == f);
    }
    rounding_is_exact_on_multiples(f, SINGLE_UNIT as int);
}

/// Whole tenths below 2^20 units are counted exactly. Of longer distances single
/// precision leaves out too much for that.
pub proof fn counting_tenths_is_exact(f: int)
    requires
        0 <= f < 10_485_760,
    ensures
        rounded_product(100_000 * f, 10) == f,
{
    if f < 5_242_880 {
        counting_short_tenths_is_exact(f);
    } else {
        counting_long_tenths_is_exact(f);
    }
}

// ----- what the roundings are --------------------------------------------------------

/// The rounded quotient is the one integer that is nearest to the exact one, and
/// of two that are equally near the one further from zero.
pub proof fn the_nearest_quotient(n: int, d: int, q: int)
    requires
        d > 0,
        2 * (n - d * q) <= d,
        2 * (d * q - n) <= d,
        2 * (n - d * q) == d ==> n < 0,
        2 * (d * q - n) == d ==> n > 0,
    ensures
        div_round(n, d) == q,
{
    let r = div_round(n, d);
    rounding_is_nearest(n, d);
    let m = if n >= 0 { n } else { -n };
    let h = d / 2;
    let w = (m + h) / d;
    assert(d * w <= m + h < d * w + d) by (nonlinear_arith)
        requires
            w == (m + h) / d,
            d > 0,
    ;
    assert(d * -w == -(d * w)) by (nonlinear_arith);
    assert(r == q) by (nonlinear_arith)
        requires
            d > 0,
            h == d / 2,
            n >= 0 ==> d * r <= n + h < d * r + d,
            n < 0 ==> -(d * r) <= -n + h < -(d * r) + d,
            2 * (n - d * q) <= d,
            2 * (d * q - n) <= d,
            2 * (n - d * q) == d ==> n < 0,
            2 * (d * q - n) == d ==> n > 0,
    ;
}

/// The quotient rounded to even is the one integer that is nearest to the exact
/// one, and of two that are equally near the even one.
pub proof fn the_nearest_even_quotient(n: int, d: int, q: int)
    requires
        n >= 0,
        d > 0,
        2 * (n - d * q) <= d,
        2 * (d * q - n) <= d,
        2 * (n - d * q) == d || 2 * (d * q - n) == d ==> q % 2 == 0,
    ensures
        div_even(n, d) == q,
{
    let w = n / d;
    let r = n % d;
    assert(n == d * w + r && 0 <= r < d) by (nonlinear_arith)
        requires
            w == n / d,
            r == n % d,
            d > 0,
    ;
    assert(q == w || q == w + 1) by (nonlinear_arith)
        requires
            n == d * w + r,
            0 <= r < d,
            2 * (n - d * q) <= d,
            2 * (d * q - n) <= d,
            d > 0,
    ;
    assert(d * (w + 1) == d * w + d) by (nonlinear_arith);
}

/// Single precision holds the one number of 24 bits that is nearest to `n`
/// millionths: `m` units of 2^e, so large that `m` has no more than 24 bits and
/// no larger than that takes; and of two that are equally near the even one.
pub proof fn the_nearest_single(n: int, e: nat, m: int)
    requires
        n >= 0,
        n * SINGLE_UNIT < 0x100_0000 * (1_000_000 * pow2(e)),
        e > 0 ==> 0x80_0000 * (1_000_000 * pow2(e)) <= n * SINGLE_UNIT,
        2 * (n * SINGLE_UNIT - 1_000_000 * pow2(e) * m) <= 1_000_000 * pow2(e),
        2 * (1_000_000 * pow2(e) * m - n * SINGLE_UNIT) <= 1_000_000 * pow2(e),
        2 * (n * SINGLE_UNIT - 1_000_000 * pow2(e) * m) == 1_000_000 * pow2(e) || 2 * (1_000_000
            * pow2(e) * m - n * SINGLE_UNIT) == 1_000_000 * pow2(e) ==> m % 2 == 0,
    ensures
        single(n) == pow2(e) * m,
{
    lemma2_to64();
    lemma_pow2_pos(e);
    if e > 0 {
        spacing_is(n, 0, e);
    }
    assert(spacing(n, 1) == pow2(e));
    the_nearest_even_quotient(n * SINGLE_UNIT, 1_000_000 * pow2(e) as int, m);
}

/// A product in single precision is the one number of 24 bits that is nearest to
/// `k` times the single-precision number, and of two that are equally near the
/// even one.
pub proof fn the_nearest_product(n: int, k: int, e: nat, m: int)
    requires
        k * single(n) >= 0,
        k * single(n) < 0x100_0000 * pow2(e),
        e > 0 ==> 0x80_0000 * pow2(e) <= k * single(n),
        2 * (k * single(n) - pow2(e) * m) <= pow2(e),
        2 * (pow2(e) * m - k * single(n)) <= pow2(e),
        2 * (k * single(n) - pow2(e) * m) == pow2(e) || 2 * (pow2(e) * m - k * single(n)) == pow2(
            e,
        ) ==> m % 2 == 0,
    ensures
        product(n, k) == pow2(e) * m,
{
    let x = k * single(n);
    lemma2_to64();
    lemma_pow2_pos(e);
    if e > 0 {
        gap_is(x, 0, e);
    }
    assert(gap(x, 1) == pow2(e));
    the_nearest_even_quotient(x, pow2(e) as int, m);
}

/// A product rounded to an integer is the nearest to the product in single
/// precision, halves away from zero, and of the other sign for the other sign.
pub proof fn the_nearest_integer_product(n: int, k: int, q: int)
    requires
        n >= 0,
        product(n, k) >= 0,
        2 * (product(n, k) - SINGLE_UNIT * q) < SINGLE_UNIT,
        2 * (SINGLE_UNIT * q - product(n, k)) <= SINGLE_UNIT,
    ensures
        rounded_product(n, k) == q,
        n > 0 ==> rounded_product(-n, k) == -q,
{
    the_nearest_quotient(product(n, k), SINGLE_UNIT as int, q);
}

/// A number brought into a range is the one of the range that is nearest to it.
pub proof fn the_nearest_in_range(n: int, lo: int, hi: int, m: int)
    requires
        lo <= m <= hi,
    ensures
        lo <= clamped(n, lo, hi) <= hi,
        n <= m ==> n <= clamped(n, lo, hi) <= m,
        n >= m ==> m <= clamped(n, lo, hi) <= n,
        lo <= n <= hi ==> clamped(n, lo, hi) == n,
{
}

/// A quantity holds what it can, up to the ends of its range.
pub proof fn a_quantity_holds_what_it_can(n: int)
    ensures
        -0x8000_0000_0000_0000 <= n <= 0x7fff_ffff_ffff_ffff ==> as_micro(n) == n,
        n > 0x7fff_ffff_ffff_ffff ==> as_micro(n) == 0x7fff_ffff_ffff_ffff,
        n < -0x8000_0000_0000_0000 ==> as_micro(n) == -0x8000_0000_0000_0000,
{
}

/// The whole units in a quantity are those that it contains, none if it is
/// negative and no more than a `u32` holds.
pub proof fn whole_units_are_contained(n: int)
    ensures
        n < 0 ==> whole_units(n) == 0,
        0 <= n < 4_294_967_296_000_000 ==> 1_000_000 * whole_units(n) <= n < 1_000_000 * (
        whole_units(n) + 1),
        n >= 4_294_967_295_000_000 ==> whole_units(n) == 4_294_967_295,
{
}

} // verus!
