//! IEEE 754 single-precision (binary32) arithmetic on small numbers, modelled exactly on
//! integers. A value is held as a whole number of units of 2^-32, which is fine enough for every
//! single-precision number between 2^-8 and 2^24 and for every integer sum of such numbers.
use vstd::prelude::*;
use vstd::arithmetic::div_mod::lemma_div_denominator;

verus! {

/// Units in one.
pub const UNIT: u64 = 0x1_0000_0000;

/// Half a unit of one: the rounding offset of `round_to_whole`.
pub const HALF_UNIT: u64 = 0x8000_0000;

/// 2^24, the first magnitude (in units) whose single-precision spacing exceeds one unit.
pub const EXACT_BELOW: u64 = 0x100_0000;

/// 2^e.
pub open spec fn two_to(e: nat) -> nat
    decreases e,
{
    if e == 0 {
        1
    } else {
        2 * two_to((e - 1) as nat)
    }
}

/// The exponent of the highest power of two at most `n` (0 for `n < 2`).
pub open spec fn log2_floor(n: nat) -> nat
    decreases n,
{
    if n < 2 {
        0
    } else {
        1 + log2_floor(n / 2)
    }
}

/// `n / d` rounded to the nearest integer, ties to the even one (`d > 0`).
pub open spec fn div_round_even(n: nat, d: nat) -> nat {
    let q = n / d;
    let r = n % d;
    if 2 * r > d || (2 * r == d && q % 2 == 1) {
        q + 1
    } else {
        q
    }
}

/// The single-precision number nearest to the magnitude `n / d` units (ties to the even
/// significand), in units. Between 2^k and 2^(k+1) units, single-precision numbers lie
/// 2^(k-23) units apart. Below 2^24 units they lie closer than a unit apart, so a whole number of
/// units there (`d == 1`) is its own nearest number; a quotient is only asked for at 2^24 units
/// or more.
pub open spec fn nearest(n: nat, d: nat) -> nat
    recommends
        d > 0,
        d == 1 || n / d >= EXACT_BELOW,
{
    let m = n / d;
    if m < EXACT_BELOW {
        m
    } else {
        let u = two_to((log2_floor(m) - 23) as nat);
        div_round_even(n, d * u) * u
    }
}

/// The single-precision number nearest to `v` units, for a whole number `v` of either sign:
/// rounding is symmetric about zero.
pub open spec fn nearest_signed(v: int) -> int {
    if v >= 0 {
        nearest(v as nat, 1) as int
    } else {
        -(nearest((-v) as nat, 1) as int)
    }
}

/// `v` units rounded to a whole number, halves away from zero.
pub open spec fn round_to_whole(v: int) -> int {
    if v >= 0 {
        (v + HALF_UNIT) / (UNIT as int)
    } else {
        -((-v + HALF_UNIT) / (UNIT as int))
    }
}

/// `v` brought into `lo..=hi`.
pub open spec fn clamp(v: int, lo: int, hi: int) -> int {
    if v < lo {
        lo
    } else if v > hi {
        hi
    } else {
        v
    }
}

proof fn lemma_two_to_23()
    ensures
        two_to(23) == 0x80_0000,
{
    reveal_with_fuel(two_to, 24);
}

proof fn lemma_two_to_24()
    ensures
        two_to(24) == EXACT_BELOW,
{
    reveal_with_fuel(two_to, 25);
}

proof fn lemma_two_to_32()
    ensures
        two_to(32) == UNIT,
{
    reveal_with_fuel(two_to, 33);
}

proof fn lemma_two_to_40()
    ensures
        two_to(40) == 0x100_0000_0000,
{
    reveal_with_fuel(two_to, 41);
}

proof fn lemma_two_to_50()
    ensures
        two_to(50) == 0x4_0000_0000_0000,
{
    reveal_with_fuel(two_to, 51);
}

proof fn lemma_two_to_pos(e: nat)
    ensures
        two_to(e) >= 1,
    decreases e,
{
    if e > 0 {
        lemma_two_to_pos((e - 1) as nat);
    }
}

proof fn lemma_two_to_mono(a: nat, b: nat)
    requires
        a <= b,
    ensures
        two_to(a) <= two_to(b),
    decreases b,
{
    if a < b {
        lemma_two_to_mono(a, (b - 1) as nat);
        lemma_two_to_pos((b - 1) as nat);
    }
}

proof fn lemma_two_to_adds(a: nat, b: nat)
    ensures
        two_to(a + b) == two_to(a) * two_to(b),
    decreases b,
{
    if b > 0 {
        lemma_two_to_adds(a, (b - 1) as nat);
        assert(a + ((b - 1) as nat) == (a + b - 1) as nat);
        assert(two_to((a + b - 1) as nat) == two_to(a) * two_to((b - 1) as nat));
        assert(two_to(a + b) == 2 * two_to((a + b - 1) as nat));
        assert(two_to(a) * two_to(b) == two_to(a) * (2 * two_to((b - 1) as nat)));
        assert(two_to(a) * (2 * two_to((b - 1) as nat)) == 2 * (two_to(a) * two_to((b - 1) as nat))) by (nonlinear_arith);
    } else {
        assert(two_to(0) == 1);
        assert(a + b == a);
    }
}

/// `2^log2_floor(n) <= n < 2^(log2_floor(n) + 1)`.
proof fn lemma_log2_bounds(n: nat)
    requires
        n >= 1,
    ensures
        two_to(log2_floor(n)) <= n < two_to(log2_floor(n) + 1),
    decreases n,
{
    if n >= 2 {
        lemma_log2_bounds(n / 2);
    }
}

/// Doubling adds one to the exponent.
proof fn lemma_log2_shift(n: nat, j: nat)
    requires
        n >= 1,
    ensures
        log2_floor(n * two_to(j)) == log2_floor(n) + j,
    decreases j,
{
    if j > 0 {
        lemma_log2_shift(n, (j - 1) as nat);
        lemma_two_to_pos((j - 1) as nat);
        let m = n * two_to((j - 1) as nat);
        assert(n * two_to(j) == 2 * m) by (nonlinear_arith)
            requires two_to(j) == 2 * two_to((j - 1) as nat), m == n * two_to((j - 1) as nat);
        assert(m >= 1) by (nonlinear_arith)
            requires n >= 1, two_to((j - 1) as nat) >= 1, m == n * two_to((j - 1) as nat);
        assert((2 * m) / 2 == m);
        assert(log2_floor(2 * m) == 1 + log2_floor(m));
        assert(log2_floor(n * two_to(j)) == log2_floor(2 * m));
    } else {
        assert(two_to(j) == 1);
        assert(n * two_to(j) == n) by (nonlinear_arith)
            requires two_to(j) == 1;
    }
}

/// The nearest number is at most twice the magnitude.
pub proof fn lemma_nearest_bound(n: nat, d: nat)
    requires
        d >= 1,
    ensures
        nearest(n, d) <= 2 * (n / d),
{
    let m = n / d;
    if m >= EXACT_BELOW {
        let k = log2_floor(m);
        lemma_log2_bounds(m);
        if k < 24 {
            lemma_two_to_mono(k + 1, 24);
            lemma_two_to_24();
        }
        let u = two_to((k - 23) as nat);
        lemma_two_to_pos((k - 23) as nat);
        lemma_two_to_mono((k - 23) as nat, k);
        assert(d * u >= 1) by (nonlinear_arith)
            requires d >= 1, u >= 1;
        let q = n / (d * u);
        lemma_div_denominator(n as int, d as int, u as int);
        assert(q == m / u);
        assert((m / u) * u <= m) by (nonlinear_arith)
            requires u >= 1;
        let t = div_round_even(n, d * u);
        assert(t <= q + 1);
        assert(t * u <= q * u + u) by (nonlinear_arith)
            requires t <= q + 1, u >= 1;
    }
}

/// A whole number `c < 2^24` of ones is a single-precision number, also when reached as the
/// quotient `c * d / d`.
pub proof fn lemma_nearest_whole_quotient(c: nat, d: nat)
    requires
        c < EXACT_BELOW,
        d >= 1,
    ensures
        nearest(c * (UNIT as nat) * d, d) == c * (UNIT as nat),
{
    let w = c * (UNIT as nat);
    let n = w * d;
    assert(n / d == w) by (nonlinear_arith)
        requires n == w * d, d >= 1;
    if c >= 1 {
        lemma_two_to_32();
        lemma_log2_shift(c, 32);
        let lc = log2_floor(c);
        lemma_log2_bounds(c);
        if lc >= 24 {
            lemma_two_to_mono(24, lc);
            lemma_two_to_24();
        }
        assert(lc <= 23);
        assert(w >= EXACT_BELOW) by (nonlinear_arith)
            requires c >= 1, w == c * (UNIT as nat);
        let e = (lc + 32 - 23) as nat;
        assert(log2_floor(w) - 23 == e);
        let u = two_to(e);
        let rest = (32 - e) as nat;
        lemma_two_to_adds(e, rest);
        assert(e + rest == 32);
        lemma_two_to_pos(e);
        let k = c * two_to(rest);
        assert(n == k * (d * u)) by (nonlinear_arith)
            requires n == w * d, w == c * (UNIT as nat), two_to(32) == UNIT, two_to(32) == u * two_to(rest),
                k == c * two_to(rest);
        assert(d * u >= 1) by (nonlinear_arith)
            requires d >= 1, u >= 1;
        assert(n / (d * u) == k && n % (d * u) == 0) by (nonlinear_arith)
            requires n == k * (d * u), d * u >= 1;
        assert(k * u == w) by (nonlinear_arith)
            requires w == c * (UNIT as nat), two_to(32) == UNIT, two_to(32) == u * two_to(rest),
                k == c * two_to(rest);
    }
}

/// A whole number `c < 2^24` of ones is a single-precision number.
pub proof fn lemma_nearest_whole(c: nat)
    requires
        c < EXACT_BELOW,
    ensures
        nearest(c * (UNIT as nat), 1) == c * (UNIT as nat),
{
    lemma_nearest_whole_quotient(c, 1);
    assert(c * (UNIT as nat) * 1 == c * (UNIT as nat));
}

/// Rounding to the nearest single-precision number moves a magnitude by at most a 2^-24
/// fraction of it.
pub proof fn lemma_nearest_error(n: nat, d: nat)
    requires
        d >= 1,
        d == 1 || n / d >= EXACT_BELOW,
    ensures
        EXACT_BELOW * (nearest(n, d) * d - n) <= n,
        EXACT_BELOW * (n - nearest(n, d) * d) <= n,
{
    let m = n / d;
    if m < EXACT_BELOW {
        assert(nearest(n, d) == n);
    } else {
        let k = log2_floor(m);
        lemma_log2_bounds(m);
        if k < 24 {
            lemma_two_to_mono(k + 1, 24);
            lemma_two_to_24();
        }
        let u = two_to((k - 23) as nat);
        lemma_two_to_pos((k - 23) as nat);
        lemma_two_to_adds((k - 23) as nat, 23);
        lemma_two_to_23();
        assert((k - 23) as nat + 23 == k);
        assert(u * 0x80_0000 <= m);
        let dd = d * u;
        assert(dd >= 1) by (nonlinear_arith)
            requires d >= 1, u >= 1, dd == d * u;
        let q = n / dd;
        let rr = n % dd;
        assert(n == q * dd + rr && 0 <= rr < dd) by (nonlinear_arith)
            requires dd >= 1, q == n / dd, rr == n % dd;
        let t = div_round_even(n, dd);
        let r = nearest(n, d);
        assert(r == t * u);
        assert(r * d == t * dd) by (nonlinear_arith)
            requires r == t * u, dd == d * u;
        if t == q {
            assert(2 * rr <= dd);
            assert(t * dd == q * dd);
        } else {
            assert(t == q + 1);
            assert(2 * rr >= dd);
            assert(t * dd == q * dd + dd) by (nonlinear_arith)
                requires t == q + 1;
        }
        assert(2 * (r * d - n) <= dd && 2 * (n - r * d) <= dd);
        assert(0x80_0000 * dd <= n) by (nonlinear_arith)
            requires dd == d * u, u * 0x80_0000 <= m, m == n / d, d >= 1;
    }
}

/// 2^e, for exponents up to 40.
fn two_to_exec(e: u64) -> (u: u64)
    requires
        e <= 40,
    ensures
        u == two_to(e as nat),
        u >= 1,
{
    let mut u: u64 = 1;
    let mut i: u64 = 0;
    while i < e
        invariant
            i <= e <= 40,
            u == two_to(i as nat),
        decreases e - i,
    {
        proof {
            lemma_two_to_mono((i + 1) as nat, 40);
            lemma_two_to_40();
        }
        u = u * 2;
        i = i + 1;
    }
    proof { lemma_two_to_pos(e as nat); }
    u
}

/// The exponent of the highest power of two at most `n`.
fn log2_floor_exec(n: u64) -> (k: u64)
    ensures
        k == log2_floor(n as nat),
{
    let mut cur: u64 = n;
    let mut k: u64 = 0;
    while cur >= 2
        invariant
            log2_floor(n as nat) == k + log2_floor(cur as nat),
            k + cur <= n + 1,
            cur <= n,
        decreases cur,
    {
        cur = cur / 2;
        k = k + 1;
    }
    k
}

/// Where the quotient is at least 2^24 units, its exponent lies between 24 and 49 and the
/// scaled divisor fits under the dividend.
proof fn lemma_nearest_parts(n: nat, d: nat)
    requires
        d >= 1,
        n < 0x4_0000_0000_0000,
        n / d >= EXACT_BELOW,
    ensures
        24 <= log2_floor(n / d) < 50,
        d * two_to((log2_floor(n / d) - 23) as nat) <= n,
        two_to((log2_floor(n / d) - 23) as nat) >= 1,
{
    let m = n / d;
    let k = log2_floor(m);
    lemma_log2_bounds(m);
    assert(m <= n) by (nonlinear_arith)
        requires d >= 1, m == n / d;
    if k < 24 {
        lemma_two_to_mono(k + 1, 24);
        lemma_two_to_24();
    }
    if k >= 50 {
        lemma_two_to_mono(50, k);
        lemma_two_to_50();
    }
    let u = two_to((k - 23) as nat);
    lemma_two_to_mono((k - 23) as nat, k);
    lemma_two_to_pos((k - 23) as nat);
    assert(d * (n / d) <= n) by (nonlinear_arith)
        requires d >= 1;
    assert(d * u <= d * m) by (nonlinear_arith)
        requires u <= m, d >= 1;
}

/// The single-precision number nearest to `n / d` units.
pub fn nearest_exec(n: u64, d: u64) -> (r: u64)
    requires
        d >= 1,
        n < 0x4_0000_0000_0000,
        d == 1 || n / d >= EXACT_BELOW,
    ensures
        r == nearest(n as nat, d as nat),
        r <= 2 * (n / d),
{
    proof { lemma_nearest_bound(n as nat, d as nat); }
    let m = n / d;
    if m < EXACT_BELOW {
        return m;
    }
    proof { lemma_nearest_parts(n as nat, d as nat); }
    let k = log2_floor_exec(m);
    let u = two_to_exec(k - 23);
    assert(d * u >= 1) by (nonlinear_arith)
        requires d >= 1, u >= 1;
    let du = d * u;
    let q = n / du;
    let rem = n % du;
    let t = if 2 * rem > du || (2 * rem == du && q % 2 == 1) { q + 1 } else { q };
    assert(t == div_round_even(n as nat, (d * u) as nat));
    assert(t * u == nearest(n as nat, d as nat));
    t * u
}

/// The single-precision number nearest to `v` units.
pub fn nearest_signed_exec(v: i64) -> (r: i64)
    requires
        -0x4_0000_0000_0000 < v < 0x4_0000_0000_0000,
    ensures
        r == nearest_signed(v as int),
        v >= 0 ==> 0 <= r <= 2 * v,
        v < 0 ==> 2 * v <= r <= 0,
{
    if v >= 0 {
        nearest_exec(v as u64, 1) as i64
    } else {
        let a = nearest_exec((-v) as u64, 1);
        -(a as i64)
    }
}

/// `v` units rounded to a whole number, halves away from zero.
pub fn round_to_whole_exec(v: i64) -> (r: i64)
    requires
        -0x10_0000_0000_0000 < v < 0x10_0000_0000_0000,
    ensures
        r == round_to_whole(v as int),
{
    if v >= 0 {
        (v + HALF_UNIT as i64) / UNIT as i64
    } else {
        -((-v + HALF_UNIT as i64) / UNIT as i64)
    }
}

/// `base + r * c` in single precision, where `r` is a number held in units and `base`, `c` are
/// whole numbers: the product and then the sum are each rounded to the nearest
/// single-precision number. In units.
pub open spec fn mul_add(base: int, r: int, c: int) -> int {
    nearest_signed(base * UNIT + nearest_signed(r * c))
}

/// `base + r * c` in single precision, in units.
pub fn mul_add_exec(base: u8, r: u64, c: i64) -> (res: i64)
    requires
        r <= 0x8_0000_0000,
        -255 <= c <= 255,
    ensures
        res == mul_add(base as int, r as int, c as int),
        -0x10_0000_0000_0000 < res < 0x10_0000_0000_0000,
{
    assert(-0x8_0000_0000 * 255 <= r * c <= 0x8_0000_0000 * 255) by (nonlinear_arith)
        requires 0 <= r <= 0x8_0000_0000, -255 <= c <= 255;
    let p = nearest_signed_exec(r as i64 * c);
    let s = nearest_signed_exec(base as i64 * UNIT as i64 + p);
    s
}

/// The single-precision quotient `x / den` in units, for `1 <= x <= 255` and `1 <= den <= 255`.
pub fn ratio_exec(x: u64, den: u64) -> (res: u64)
    requires
        1 <= x <= 255,
        1 <= den <= 255,
    ensures
        res == nearest((x * UNIT) as nat, den as nat),
        res <= 2 * ((x * UNIT) as nat / den as nat),
{
    assert(x * UNIT <= 255 * UNIT) by (nonlinear_arith)
        requires x <= 255;
    assert((x * UNIT) as nat / den as nat >= EXACT_BELOW) by (nonlinear_arith)
        requires 1 <= x, 1 <= den <= 255;
    nearest_exec(x * UNIT, den)
}

} // verus!
