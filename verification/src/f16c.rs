//! Half precision on bit patterns: rounding single precision to half precision
//! to nearest, ties to even, and the byte conversions of the weight loader.
//!
//! A single or a half is held as the integer of its bits.

use vstd::arithmetic::power2;
use vstd::prelude::*;

verus! {

/// `n / d` rounded to the nearest integer, ties to the even one.
pub open spec fn round_half_even(n: int, d: int) -> int {
    let q = n / d;
    let r = n % d;
    if 2 * r < d {
        q
    } else if 2 * r > d {
        q + 1
    } else if q % 2 == 0 {
        q
    } else {
        q + 1
    }
}

/// The magnitude bits of the half nearest to the finite single with magnitude
/// bits `a`. From 65520 on that is infinity.
pub open spec fn half_magnitude(a: int) -> int {
    let e = a / 0x80_0000 - 112;
    let m = a % 0x80_0000 + 0x80_0000;
    if e >= 31 {
        0x7c00
    } else if e >= 1 {
        (e - 1) * 1024 + round_half_even(m, 8192)
    } else if e >= -10 {
        round_half_even(m, power2::pow2((14 - e) as nat) as int)
    } else {
        0
    }
}

/// The half nearest to the single `bits`. A NaN stays a quiet NaN with the upper
/// bits of its payload.
pub open spec fn half_of_single(bits: u32) -> int {
    let a = bits as int % 0x8000_0000;
    let sign = (bits as int / 0x8000_0000) * 0x8000;
    let payload = (a % 0x80_0000) / 8192;
    if a > 0x7f80_0000 {
        sign + 0x7c00 + (if payload >= 512 {
            payload
        } else {
            payload + 512
        })
    } else {
        sign + half_magnitude(a)
    }
}

proof fn lemma_round_bounds(n: int, d: int, top: int)
    by (nonlinear_arith)
    requires
        d > 0,
        0 <= n < top * d,
    ensures
        0 <= round_half_even(n, d) <= top,
{
}

fn rounded(n: u32, d: u32) -> (r: u32)
    requires
        0 < d <= 0x100_0000,
        n < 0x100_0000,
    ensures
        r == round_half_even(n as int, d as int),
{
    let q: u32 = n / d;
    let rest: u32 = n % d;
    if 2 * rest < d || (2 * rest == d && q % 2 == 0) {
        q
    } else {
        q + 1
    }
}

fn finite_magnitude(a: u32) -> (h: u16)
    requires
        a <= 0x7f80_0000,
    ensures
        h == half_magnitude(a as int),
        h <= 0x7c00,
{
    let exp: u32 = a / 0x80_0000;
    let m: u32 = a % 0x80_0000 + 0x80_0000;
    if exp >= 143 {
        0x7c00
    } else if exp >= 113 {
        proof {
            lemma_round_bounds(m as int, 8192, 2048);
        }
        ((exp - 113) * 1024 + rounded(m, 8192)) as u16
    } else if exp >= 102 {
        let mut d: u32 = 0x4000;
        let mut i: u32 = 112;
        proof {
            power2::lemma2_to64();
        }
        while i > exp
            invariant
                102 <= exp <= i <= 112,
                d == power2::pow2((126 - i) as nat),
                power2::pow2(14) == 0x4000,
                power2::pow2(24) == 0x100_0000,
            decreases i - exp,
        {
            proof {
                power2::lemma_pow2_unfold((126 - i + 1) as nat);
                if i - 1 > 102 {
                    power2::lemma_pow2_strictly_increases((126 - i + 1) as nat, 24);
                }
            }
            d = 2 * d;
            i -= 1;
        }
        proof {
            if exp > 102 {
                power2::lemma_pow2_strictly_increases((126 - exp) as nat, 24);
            }
            {
                if exp < 112 {
                    power2::lemma_pow2_strictly_increases(14, (126 - exp) as nat);
                }
            }
            assert(d >= 0x4000);
            assert(m < 1024 * d);
            lemma_round_bounds(m as int, d as int, 1024);
        }
        rounded(m, d) as u16
    } else {
        0
    }
}

/// The half nearest to the single `bits`; a NaN keeps the upper bits of its
/// payload.
pub fn half_bits(bits: u32) -> (h: u16)
    ensures
        h == half_of_single(bits),
{
    let a: u32 = bits % 0x8000_0000;
    let sign: u16 = if bits >= 0x8000_0000 {
        0x8000
    } else {
        0
    };
    if a > 0x7f80_0000 {
        let payload: u16 = ((a % 0x80_0000) / 8192) as u16;
        if payload >= 512 {
            sign + 0x7c00 + payload
        } else {
            sign + 0x7c00 + (payload + 512)
        }
    } else {
        sign + finite_magnitude(a)
    }
}

/// [`half_of_single`], but every NaN becomes the quiet NaN without payload.
pub open spec fn half_of_single_quiet(v: u32) -> int {
    if v as int % 0x8000_0000 > 0x7f80_0000 {
        (v as int / 0x8000_0000) * 0x8000 + 0x7e00
    } else {
        half_of_single(v)
    }
}

/// The half nearest to the single `v`, for weights read from a file: every NaN
/// becomes the quiet NaN without payload.
pub fn f32_to_f16_bits(v: u32) -> (h: u16)
    ensures
        h == half_of_single_quiet(v),
{
    if v % 0x8000_0000 > 0x7f80_0000 {
        if v >= 0x8000_0000 {
            0xfe00
        } else {
            0x7e00
        }
    } else {
        half_bits(v)
    }
}

/// The upper half of the single `v`, rounded to nearest, ties to even.
pub fn f32_to_bf16_bits(v: u32) -> (h: u16)
    requires
        v + 0x7fff + (v as int / 0x1_0000) % 2 <= u32::MAX,
    ensures
        h == round_half_even(v as int, 0x1_0000),
{
    let lsb: u32 = (v / 0x1_0000) % 2;
    ((v + 0x7fff + lsb) / 0x1_0000) as u16
}

/// Pair `i` of little endian bytes.
pub open spec fn pair_at(bytes: Seq<u8>, i: int) -> int {
    bytes[2 * i] + 256 * bytes[2 * i + 1]
}

/// bf16 bytes to half bytes, pair by pair; a last odd byte is not read. What lies
/// behind the written bytes stays.
pub fn bf16_bytes_to_f16_bytes(src: &[u8], dst: &mut [u8])
    requires
        old(dst)@.len() >= src@.len(),
    ensures
        final(dst)@.len() == old(dst)@.len(),
        forall|i: int|
            0 <= i < src@.len() / 2 ==> #[trigger] pair_at(final(dst)@, i) == half_of_single(
                (pair_at(src@, i) * 0x1_0000) as u32,
            ),
        forall|x: int|
            (src@.len() / 2) * 2 <= x < final(dst)@.len() ==> #[trigger] final(dst)@[x] == old(
                dst,
            )@[x],
{
    let total: usize = src.len();
    let n: usize = total / 2;
    let mut i: usize = 0;
    while i < n
        invariant
            i <= n,
            n == total / 2,
            total == src@.len(),
            dst@.len() == old(dst)@.len(),
            dst@.len() >= src@.len(),
            forall|j: int|
                0 <= j < i ==> #[trigger] pair_at(dst@, j) == half_of_single(
                    (pair_at(src@, j) * 0x1_0000) as u32,
                ),
            forall|x: int| 2 * i <= x < dst@.len() ==> #[trigger] dst@[x] == old(dst)@[x],
        decreases n - i,
    {
        let ghost before = dst@;
        let pair: u32 = src[2 * i] as u32 + 256 * (src[2 * i + 1] as u32);
        let h: u16 = half_bits(pair * 0x1_0000);
        dst[2 * i] = (h % 256) as u8;
        dst[2 * i + 1] = (h / 256) as u8;
        proof {
            assert forall|j: int| 0 <= j < i implies #[trigger] pair_at(dst@, j) == half_of_single(
                (pair_at(src@, j) * 0x1_0000) as u32,
            ) by {
                assert(pair_at(before, j) == pair_at(dst@, j));
            }
            assert(pair_at(dst@, i as int) == h);
        }
        i += 1;
    }
}

/// Singles to half bytes, one pair each. What lies behind the written bytes stays.
pub fn f32_slice_to_f16_bytes(src: &[u32], dst: &mut [u8])
    requires
        old(dst)@.len() >= src@.len() * 2,
    ensures
        final(dst)@.len() == old(dst)@.len(),
        forall|i: int|
            0 <= i < src@.len() ==> #[trigger] pair_at(final(dst)@, i) == half_of_single(src@[i]),
        forall|x: int|
            src@.len() * 2 <= x < final(dst)@.len() ==> #[trigger] final(dst)@[x] == old(dst)@[x],
{
    let n: usize = src.len();
    let room: usize = dst.len();
    let mut i: usize = 0;
    while i < n
        invariant
            i <= n,
            n == src@.len(),
            dst@.len() == old(dst)@.len(),
            room == dst@.len(),
            room >= n * 2,
            forall|j: int| 0 <= j < i ==> #[trigger] pair_at(dst@, j) == half_of_single(src@[j]),
            forall|x: int| 2 * i <= x < dst@.len() ==> #[trigger] dst@[x] == old(dst)@[x],
        decreases n - i,
    {
        let ghost before = dst@;
        let h: u16 = half_bits(src[i]);
        dst[2 * i] = (h % 256) as u8;
        dst[2 * i + 1] = (h / 256) as u8;
        proof {
            assert forall|j: int| 0 <= j < i implies #[trigger] pair_at(dst@, j) == half_of_single(
                src@[j],
            ) by {
                assert(pair_at(before, j) == pair_at(dst@, j));
            }
            assert(pair_at(dst@, i as int) == h);
        }
        i += 1;
    }
}

/// The value of the finite single with magnitude bits `a`, in units of the least
/// positive single.
pub open spec fn single_value(a: int) -> int {
    let m = a % 0x80_0000;
    let e = a / 0x80_0000;
    if e == 0 {
        m
    } else {
        (0x80_0000 + m) * power2::pow2((e - 1) as nat)
    }
}

/// The value of the half with magnitude bits `h`, in units of the least positive
/// half. Infinity counts as the next power of two.
pub open spec fn half_value(h: int) -> int {
    let m = h % 1024;
    let e = h / 1024;
    if e == 0 {
        m
    } else {
        (1024 + m) * power2::pow2((e - 1) as nat)
    }
}

/// How many least positive singles make up a least positive half.
pub open spec fn half_unit() -> int {
    power2::pow2(125) as int
}

pub open spec fn distance(x: int, y: int) -> int {
    if x >= y {
        x - y
    } else {
        y - x
    }
}

/// `h` is the half nearest to the single `a`: no other half is nearer, and `h` is
/// even where another one is as near.
pub open spec fn is_nearest_half(a: int, h: int) -> bool {
    forall|g: int|
        #![trigger half_value(g)]
        0 <= g <= 0x7c00 && g != h ==> {
            let dh = distance(half_value(h) * half_unit(), single_value(a));
            let dg = distance(half_value(g) * half_unit(), single_value(a));
            dh < dg || (dh == dg && h % 2 == 0)
        }
}

proof fn lemma_half_step(h: int)
    requires
        0 <= h < 0x7c00,
    ensures
        half_value(h) < half_value(h + 1),
{
    let e = h / 1024;
    let m = h % 1024;
    if m == 1023 {
        assert((h + 1) / 1024 == e + 1 && (h + 1) % 1024 == 0);
        power2::lemma2_to64();
        if e > 0 {
            power2::lemma_pow2_unfold(e as nat);
            power2::lemma_pow2_pos((e - 1) as nat);
        }
    } else {
        assert((h + 1) / 1024 == e && (h + 1) % 1024 == m + 1);
        if e > 0 {
            let p = power2::pow2((e - 1) as nat);
            power2::lemma_pow2_pos((e - 1) as nat);
            assert((1024 + m) * p < (1024 + (m + 1)) * p) by (nonlinear_arith)
                requires
                    p > 0,
            ;
        }
    }
}

proof fn lemma_half_monotone(g: int, h: int)
    requires
        0 <= g <= h <= 0x7c00,
    ensures
        half_value(g) <= half_value(h),
        g < h ==> half_value(g) < half_value(h),
    decreases h - g,
{
    if g < h {
        lemma_half_monotone(g, h - 1);
        lemma_half_step(h - 1);
    }
}

/// Rounding half to even is nearest among the integers.
proof fn lemma_rounding_is_nearest(n: int, d: int, q: int)
    by (nonlinear_arith)
    requires
        d > 0,
        n >= 0,
        q != round_half_even(n, d),
    ensures
        ({
            let r = round_half_even(n, d);
            let dr = distance(r * d, n);
            let dq = distance(q * d, n);
            dr < dq || (dr == dq && r % 2 == 0)
        }),
{
    let f = n / d;
    let rest = n % d;
    assert(n == f * d + rest);
    if q <= f - 1 {
        assert(q * d <= (f - 1) * d);
        assert((f - 1) * d == f * d - d);
    } else if q >= f + 2 {
        assert(q * d >= (f + 2) * d);
        assert((f + 2) * d == f * d + 2 * d);
    }
    assert((f + 1) * d == f * d + d);
}

proof fn lemma_scaled_distance(x: int, y: int, u: int)
    by (nonlinear_arith)
    requires
        u > 0,
    ensures
        distance(x * u, y * u) == distance(x, y) * u,
{
}

proof fn lemma_scaled_order(x: int, y: int, u: int)
    by (nonlinear_arith)
    requires
        u > 0,
    ensures
        x < y ==> x * u < y * u,
        x == y ==> x * u == y * u,
        x <= y ==> x * u <= y * u,
{
}

/// On a stretch of halves `base .. base + top` with equal steps of `d * u`, the
/// rounded quotient is the nearest half of all.
proof fn lemma_nearest_on_stretch(a: int, base: int, lo: int, top: int, m: int, d: int, u: int)
    requires
        u > 0,
        d > 0,
        0 <= lo <= top,
        0 <= base + lo,
        base + top <= 0x7c00,
        base % 2 == 0,
        lo * d <= m <= top * d,
        single_value(a) == m * u,
        forall|q: int|
            lo <= q <= top ==> #[trigger] half_value(base + q) * half_unit() == (q * d) * u,
    ensures
        is_nearest_half(a, base + round_half_even(m, d)),
{
    let r = round_half_even(m, d);
    let h = base + r;
    assert(lo <= r <= top) by (nonlinear_arith)
        requires
            r == round_half_even(m, d),
            d > 0,
            lo * d <= m <= top * d,
    {
        let f = m / d;
        assert(m == f * d + m % d);
    }
    assert(0 <= m) by (nonlinear_arith)
        requires
            lo * d <= m,
            0 <= lo,
            d > 0,
    ;
    assert(half_value(base + r) * half_unit() == (r * d) * u);
    lemma_scaled_distance(r * d, m, u);
    assert forall|g: int| #![trigger half_value(g)] 0 <= g <= 0x7c00 && g != h implies {
        let dh = distance(half_value(h) * half_unit(), single_value(a));
        let dg = distance(half_value(g) * half_unit(), single_value(a));
        dh < dg || (dh == dg && h % 2 == 0)
    } by {
        let dh = distance(half_value(h) * half_unit(), single_value(a));
        let dg = distance(half_value(g) * half_unit(), single_value(a));
        power2::lemma_pow2_pos(125);
        // The nearest half on the stretch, towards `g`.
        let q = if g < base + lo {
            lo
        } else if g > base + top {
            top
        } else {
            g - base
        };
        let c = base + q;
        assert(half_value(base + q) * half_unit() == (q * d) * u);
        let dc = distance(half_value(c) * half_unit(), single_value(a));
        lemma_scaled_distance(q * d, m, u);
        if q != r {
            lemma_rounding_is_nearest(m, d, q);
            lemma_scaled_order(distance(r * d, m), distance(q * d, m), u);
            assert(dh < dc || (dh == dc && r % 2 == 0));
        }
        if g < c {
            lemma_half_monotone(g, c);
            lemma_scaled_order(half_value(g), half_value(c), half_unit());
            lemma_scaled_order(q * d, m, u);
            assert(dc < dg);
        } else if g > c {
            lemma_half_monotone(c, g);
            lemma_scaled_order(half_value(c), half_value(g), half_unit());
            lemma_scaled_order(m, q * d, u);
            assert(dc < dg);
        }
    }
}

/// Rounding a finite single gives the nearest half, the even one of two.
pub proof fn law_half_is_nearest(a: int)
    requires
        0 <= a < 0x7f80_0000,
    ensures
        is_nearest_half(a, half_magnitude(a)),
{
    let exp = a / 0x80_0000;
    let e = exp - 112;
    let m = a % 0x80_0000 + 0x80_0000;
    power2::lemma2_to64();
    if e >= 31 {
        lemma_large(a);
    } else if e >= 1 {
        let u = power2::pow2((exp - 1) as nat) as int;
        power2::lemma_pow2_pos((exp - 1) as nat);
        let base = (e - 1) * 1024;
        assert forall|q: int| 1024 <= q <= 2048 implies #[trigger] half_value(base + q)
            * half_unit() == (q * 8192) * u by {
            let p = power2::pow2((e - 1) as nat) as int;
            if q < 2048 {
                assert((base + q) / 1024 == e && (base + q) % 1024 == q - 1024);
                assert(half_value(base + q) == q * p);
            } else {
                assert((base + q) / 1024 == e + 1 && (base + q) % 1024 == 0);
                power2::lemma_pow2_unfold(e as nat);
                assert(half_value(base + q) == 1024 * (2 * p));
                assert(1024 * (2 * p) == q * p);
            }
            power2::lemma_pow2_adds((e - 1) as nat, 125);
            power2::lemma_pow2_adds(13, (exp - 1) as nat);
            assert(e - 1 + 125 == 13 + (exp - 1));
            assert(p * half_unit() == 8192 * u);
            assert((q * p) * half_unit() == q * (p * half_unit())) by (nonlinear_arith);
            assert(q * (8192 * u) == (q * 8192) * u) by (nonlinear_arith);
        }
        lemma_nearest_on_stretch(a, base, 1024, 2048, m, 8192, u);
    } else if e >= -10 {
        let u = power2::pow2((exp - 1) as nat) as int;
        power2::lemma_pow2_pos((exp - 1) as nat);
        let d = power2::pow2((14 - e) as nat) as int;
        power2::lemma_pow2_pos((14 - e) as nat);
        if e < 0 {
            power2::lemma_pow2_strictly_increases(14, (14 - e) as nat);
        }
        assert forall|q: int| 0 <= q <= 1024 implies #[trigger] half_value(0 + q) * half_unit() == (
        q * d) * u by {
            assert(half_value(q) == q) by {
                if q == 1024 {
                    assert(q / 1024 == 1 && q % 1024 == 0);
                } else {
                    assert(q / 1024 == 0 && q % 1024 == q);
                }
            }
            power2::lemma_pow2_adds((14 - e) as nat, (exp - 1) as nat);
            assert((14 - e) + (exp - 1) == 125);
            assert(d * u == half_unit());
            assert(q * (d * u) == (q * d) * u) by (nonlinear_arith);
        }
        assert(0 * d <= m <= 1024 * d);
        lemma_nearest_on_stretch(a, 0, 0, 1024, m, d, u);
    } else {
        lemma_tiny(a);
    }
}

proof fn lemma_large(a: int)
    requires
        0 <= a < 0x7f80_0000,
        a / 0x80_0000 >= 143,
    ensures
        is_nearest_half(a, 0x7c00),
{
    let exp = a / 0x80_0000;
    let m = a % 0x80_0000 + 0x80_0000;
    let u = power2::pow2((exp - 1) as nat) as int;
    let unit = half_unit();
    power2::lemma2_to64();
    power2::lemma_pow2_pos(125);
    power2::lemma_pow2_adds(30, 125);
    assert(half_value(0x7c00) == 1024 * power2::pow2(30)) by {
        assert(0x7c00int / 1024 == 31 && 0x7c00int % 1024 == 0);
    }
    // 2^10 * 2^30 * 2^125 == 2^23 * 2^142
    power2::lemma_pow2_adds(10, 155);
    power2::lemma_pow2_adds(23, 142);
    if exp > 143 {
        power2::lemma_pow2_strictly_increases(142, (exp - 1) as nat);
    }
    let w = power2::pow2(142) as int;
    let p30 = power2::pow2(30) as int;
    assert((1024 * p30) * unit == 1024 * (p30 * unit)) by (nonlinear_arith);
    assert(half_value(0x7c00) * unit == 0x80_0000 * w);
    assert(0x80_0000 * w <= m * u) by (nonlinear_arith)
        requires
            m >= 0x80_0000,
            u >= w,
            w >= 0,
    ;
    assert forall|g: int| #![trigger half_value(g)] 0 <= g <= 0x7c00 && g != 0x7c00 implies {
        let dh = distance(half_value(0x7c00) * unit, single_value(a));
        let dg = distance(half_value(g) * unit, single_value(a));
        dh < dg || (dh == dg && 0x7c00int % 2 == 0)
    } by {
        lemma_half_monotone(g, 0x7c00);
        lemma_scaled_order(half_value(g), half_value(0x7c00), unit);
    }
}

proof fn lemma_tiny(a: int)
    requires
        0 <= a < 0x7f80_0000,
        a / 0x80_0000 <= 101,
    ensures
        is_nearest_half(a, 0),
{
    let exp = a / 0x80_0000;
    let m = a % 0x80_0000;
    let unit = half_unit();
    power2::lemma2_to64();
    power2::lemma_pow2_pos(125);
    power2::lemma_pow2_unfold(125);
    power2::lemma_pow2_adds(24, 100);
    let s = single_value(a);
    assert(0 <= s && 2 * s < unit) by {
        if exp == 0 {
            power2::lemma_pow2_strictly_increases(24, 125);
        } else {
            let p = power2::pow2((exp - 1) as nat) as int;
            power2::lemma_pow2_pos((exp - 1) as nat);
            let w = power2::pow2(100) as int;
            if exp < 101 {
                power2::lemma_pow2_strictly_increases((exp - 1) as nat, 100);
            }
            assert((0x80_0000 + m) * p < 0x100_0000 * w) by (nonlinear_arith)
                requires
                    0 < p <= w,
                    0 <= m < 0x80_0000,
            ;
            assert((0x80_0000 + m) * p >= 0) by (nonlinear_arith)
                requires
                    0 < p,
                    0 <= m,
            ;
        }
    }
    assert(half_value(0) == 0);
    assert(0 * unit == 0) by (nonlinear_arith);
    assert forall|g: int| #![trigger half_value(g)] 0 <= g <= 0x7c00 && g != 0 implies {
        let dh = distance(half_value(0) * unit, s);
        let dg = distance(half_value(g) * unit, s);
        dh < dg || (dh == dg && 0int % 2 == 0)
    } by {
        lemma_half_monotone(1, g);
        assert(half_value(1) == 1);
        lemma_scaled_order(1, half_value(g), unit);
    }
}

} // verus!
