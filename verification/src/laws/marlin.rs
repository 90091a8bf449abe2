//! Laws of the marlin layouts: where weights, scales, zero points and tokens stand.

use crate::f16c;
use crate::kernels::marlin::moe::{self, MoeAlign, MoeRepacked};
use crate::kernels::marlin::repack;
use crate::kernels::marlin::scales;
use crate::kernels::marlin;
use vstd::arithmetic::div_mod;
use vstd::prelude::*;

verus! {

// ---- Scales ----

proof fn lemma_max_single(x: Seq<u32>)
    ensures
        scales::max_single(x) <= 0x7f80_0000,
        forall|i: int|
            0 <= i < x.len() && #[trigger] x[i] <= 0x7f80_0000 ==> x[i] <= scales::max_single(x),
        scales::max_single(x) == 0 || x.contains(scales::max_single(x)),
    decreases x.len(),
{
    if x.len() > 0 {
        let y = x.drop_last();
        lemma_max_single(y);
        let m = scales::max_single(y);
        assert forall|i: int| 0 <= i < x.len() && #[trigger] x[i] <= 0x7f80_0000 implies x[i]
            <= scales::max_single(x) by {
            if i < y.len() {
                assert(y[i] == x[i]);
            }
        }
        if scales::max_single(x) != 0 {
            if scales::max_single(x) == m {
                let i = choose|i: int| 0 <= i < y.len() && y[i] == m;
                assert(x[i] == m);
            } else {
                assert(x[x.len() - 1] == scales::max_single(x));
            }
        }
    }
}

/// The largest scale is a maximum: it is one of the scales, or zero, no scale that is
/// neither negative nor NaN is above it, and it is zero only where no such scale is
/// above zero. Whatever follows is as long as the scales.
pub proof fn law_largest_scale_is_a_maximum<F: Fn(u32, u32) -> i64>(
    x: &[u32],
    out: usize,
    groups: usize,
    quantize: F,
    r: (Vec<u16>, u32),
)
    requires
        call_ensures(scales::pack_marlin_s_a8::<F>, (x, out, groups, quantize), r),
    ensures
        forall|i: int| 0 <= i < x@.len() && #[trigger] x@[i] <= 0x7f80_0000 ==> x@[i] <= r.1,
        r.1 == 0 || x@.contains(r.1),
        r.1 <= 0x7f80_0000,
        r.1 == 0 <==> forall|i: int|
            0 <= i < x@.len() ==> #[trigger] x@[i] == 0 || x@[i] > 0x7f80_0000,
        r.0@.len() == x@.len(),
{
    lemma_max_single(x@);
    if r.1 != 0 {
        let i = choose|i: int| 0 <= i < x@.len() && x@[i] == r.1;
        assert(x@[i] != 0 && x@[i] <= 0x7f80_0000);
    }
}

/// The order of the scales changes neither the largest of them nor whether there is one.
pub proof fn law_largest_scale_ignores_order<F: Fn(u32, u32) -> i64>(
    x: &[u32],
    y: &[u32],
    out: usize,
    groups: usize,
    quantize: F,
    r: (Vec<u16>, u32),
    q: (Vec<u16>, u32),
)
    requires
        call_ensures(scales::pack_marlin_s_a8::<F>, (x, out, groups, quantize), r),
        call_ensures(scales::pack_marlin_s_a8::<F>, (y, out, groups, quantize), q),
        forall|v: u32| x@.contains(v) == y@.contains(v),
    ensures
        r.1 == q.1,
{
    law_largest_scale_is_a_maximum(x, out, groups, quantize, r);
    law_largest_scale_is_a_maximum(y, out, groups, quantize, q);
    if r.1 != 0 {
        assert(y@.contains(r.1));
        let i = choose|i: int| 0 <= i < y@.len() && y@[i] == r.1;
        assert(y@[i] <= q.1);
    }
    if q.1 != 0 {
        assert(x@.contains(q.1));
        let i = choose|i: int| 0 <= i < x@.len() && x@[i] == q.1;
        assert(x@[i] <= r.1);
    }
}

proof fn lemma_transposed_cell(o: int, g: int, out: int, groups: int)
    requires
        0 <= o < out,
        0 <= g < groups,
    ensures
        (g * out + o) % out == o,
        (g * out + o) / out == g,
        0 <= g * out + o < out * groups,
        0 <= o * groups + g < out * groups,
{
    div_mod::lemma_fundamental_div_mod_converse(g * out + o, out, g, o);
    repack::lemma_cell(g, o, groups, out);
    repack::lemma_cell(o, g, out, groups);
    assert(groups * out == out * groups) by (nonlinear_arith);
}

/// Grouped scales are transposed, and every 64 of them are transposed again as eight
/// rows of eight: the scale of output `o` in group `g`, number `64 c + 8 a + b` of the
/// transposed order, stands at `64 c + 8 b + a`.
pub proof fn law_grouped_scales_have_their_place<T: Copy>(
    x: &[T],
    out: usize,
    groups: usize,
    r: Vec<T>,
    o: int,
    g: int,
    c: int,
    a: int,
    b: int,
)
    requires
        call_ensures(scales::pack_marlin_s_f32::<T>, (x, out, groups), r),
        x@.len() == out * groups,
        0 <= o < out,
        0 <= g < groups,
        0 <= a < 8,
        0 <= b < 8,
        c >= 0,
        g * out + o == 64 * c + 8 * a + b,
        (out * groups) % 64 == 0,
    ensures
        r@.len() == x@.len(),
        r@[64 * c + 8 * b + a] == x@[o * groups + g],
{
    let (out, groups) = (out as int, groups as int);
    lemma_transposed_cell(o, g, out, groups);
    let p = 64 * c + 8 * b + a;
    assert(p / 64 == c && p % 64 == 8 * b + a);
    assert((8 * b + a) / 8 == b && (8 * b + a) % 8 == a);
    assert(p < out * groups) by {
        let m = (out * groups) / 64;
        assert(out * groups == 64 * m);
        assert(c < m);
    }
    assert(scales::permuted_source(out, groups, 64, scales::grouped_perm(), p) == o * groups + g);
}

/// A half of the grouped order is the rounded single of the same place.
pub proof fn law_halves_follow_the_singles(
    x: &[u32],
    out: usize,
    groups: usize,
    r: Vec<u16>,
    singles: Vec<u32>,
    p: int,
    h: u16,
)
    requires
        call_ensures(scales::pack_marlin_s, (x, out, groups), r),
        call_ensures(scales::pack_marlin_s_f32::<u32>, (x, out, groups), singles),
        0 <= p < r@.len(),
        call_ensures(f16c::half_bits, (singles@[p],), h),
    ensures
        r@.len() == x@.len(),
        singles@.len() == x@.len(),
        r@[p] == h,
{
}

/// Scales for 8 bit activations are transposed, and every 32 of them are transposed
/// again as four rows of four pairs: number `32 c + 8 a + 2 b + e` of the transposed
/// order stands at `32 c + 8 b + 2 a + e`. Where there is a largest scale each is
/// what was answered for it, cut to what 16 bits hold; else all are zero.
pub proof fn law_quantized_scales_have_their_place<F: Fn(u32, u32) -> i64>(
    x: &[u32],
    out: usize,
    groups: usize,
    quantize: F,
    r: (Vec<u16>, u32),
    o: int,
    g: int,
    c: int,
    a: int,
    b: int,
    e: int,
)
    requires
        call_ensures(scales::pack_marlin_s_a8::<F>, (x, out, groups, quantize), r),
        x@.len() == out * groups,
        0 <= o < out,
        0 <= g < groups,
        0 <= a < 4,
        0 <= b < 4,
        0 <= e < 2,
        c >= 0,
        g * out + o == 32 * c + 8 * a + 2 * b + e,
        (out * groups) % 32 == 0,
    ensures
        r.1 == 0 ==> r.0@[32 * c + 8 * b + 2 * a + e] == 0,
        r.1 != 0 ==> exists|q: i64| #[trigger]
            call_ensures(quantize, (x@[o * groups + g], r.1), q) && {
                let v = r.0@[32 * c + 8 * b + 2 * a + e];
                &&& 0 <= v <= 32767
                &&& 0 <= q <= 32767 ==> v == q
                &&& q < 0 ==> v == 0
                &&& q > 32767 ==> v == 32767
            },
{
    let (n, m) = (out as int, groups as int);
    lemma_transposed_cell(o, g, n, m);
    let p = 32 * c + 8 * b + 2 * a + e;
    assert(p / 32 == c && p % 32 == 8 * b + 2 * a + e);
    let d = 8 * b + 2 * a + e;
    assert(d / 8 == b && (d % 8) / 2 == a && d % 2 == e);
    assert(p < n * m) by {
        let t = (n * m) / 32;
        assert(n * m == 32 * t);
        assert(c < t);
    }
    assert(scales::permuted_source(n, m, 32, scales::single_perm(), p) == o * m + g);
    if r.1 != 0 {
        let flat = scales::permuted_scales(x@, n, m, 32, scales::single_perm());
        let qs = choose|qs: Seq<i64>| #[trigger]
            scales::quantized(quantize, flat, r.1, qs) && r.0@ == Seq::new(
                qs.len(),
                |p: int| scales::clamped(qs[p]),
            );
        assert(flat[p] == x@[o * m + g]);
        assert(call_ensures(quantize, (flat[p], r.1), qs[p]));
        assert(r.0@[p] == scales::clamped(qs[p]));
    }
}

/// A packed zero point is found four bits up for each row of its word; the rows past
/// the last whole word are zero.
pub proof fn law_zero_points_are_unpacked(
    packed: &[i32],
    out: usize,
    groups: usize,
    z: Vec<u8>,
    row: int,
    c: int,
    word: int,
    j: int,
)
    requires
        call_ensures(scales::unpack_zp_ct, (packed, out, groups), z),
        packed@.len() == (out / 8) * groups,
        0 <= row < out,
        0 <= c < groups,
        0 <= j < 8,
        row == 8 * word + j,
    ensures
        z@.len() == out * groups,
        8 * word + 8 <= out ==> z@[row * groups + c] == ((packed@[word * groups + c] as u32 >> (4
            * j) as u32) & 0xF) as u8,
        8 * word + 8 > out ==> z@[row * groups + c] == 0,
{
    assert(row / 8 == word && row % 8 == j);
    let _ = z@[row * groups + c];
}

/// Columns of packed weights are found four bits up for each column of their word; the
/// columns past the last whole word are zero.
pub proof fn law_nibbles_are_unpacked(
    packed: &[i32],
    out: usize,
    k: usize,
    q: Vec<u8>,
    row: int,
    c: int,
    word: int,
    j: int,
)
    requires
        call_ensures(repack::unpack_nibbles, (packed, out, k), q),
        packed@.len() == out * (k / 8),
        0 <= row < out,
        0 <= c < k,
        0 <= j < 8,
        c == 8 * word + j,
    ensures
        q@.len() == out * k,
        8 * word + 8 <= k ==> q@[row * k + c] == ((packed@[row * (k / 8) + word] as u32 >> (4
            * j) as u32) & 0xF) as u8,
        8 * word + 8 > k ==> q@[row * k + c] == 0,
{
    assert(c / 8 == word && c % 8 == j);
    let _ = q@[row * k + c];
}

// ---- Weights ----

/// The nibble of a word in which the kernel reads number `x` of eight values: the even
/// ones first.
pub open spec fn reading_order(x: int) -> int {
    if x % 2 == 0 {
        x / 2
    } else {
        4 + x / 2
    }
}

/// The weight permutation names, for lane `4 l + m` of a warp, fragment `j` and value
/// `(c, b, a)`, the cell of a tile of 16 inputs by 64 outputs: input `8 b + 2 m + a` of
/// output `16 j + 8 c + l`.
pub proof fn law_weight_permutation(
    perm: Vec<usize>,
    l: int,
    m: int,
    j: int,
    c: int,
    b: int,
    a: int,
)
    requires
        call_ensures(repack::marlin_perm, (), perm),
        0 <= l < 8,
        0 <= m < 4,
        0 <= j < 4,
        0 <= c < 2,
        0 <= b < 2,
        0 <= a < 2,
    ensures
        perm@.len() == 1024,
        perm@[32 * (4 * l + m) + 8 * j + reading_order(4 * c + 2 * b + a)] == 256 * j + 16 * (8 * b
            + 2 * m + a) + 8 * c + l,
{
    reveal(repack::perm_at);
    let x = 4 * c + 2 * b + a;
    let t = reading_order(x);
    assert(0 <= t < 8 && repack::interleave_at(t) == x);
    let d = 32 * (4 * l + m) + 8 * j + t;
    assert(d / 32 == 4 * l + m && (d / 8) % 4 == j && d % 8 == t);
    assert((4 * l + m) % 4 == m && (4 * l + m) / 4 == l);
    assert(x % 2 == a && (x % 4) / 2 == b && x / 4 == c);
    assert(perm@[d] == repack::perm_at(d));
}

/// The scale permutations transpose: eight rows of eight, and four rows of four pairs.
pub proof fn law_scale_permutations(sp: Vec<usize>, single: Vec<usize>, a: int, b: int, e: int)
    requires
        call_ensures(repack::marlin_scale_perm, (), sp),
        call_ensures(repack::marlin_scale_perm_single, (), single),
        0 <= a < 8,
        0 <= b < 8,
        0 <= e < 2,
    ensures
        sp@.len() == 64 && single@.len() == 32,
        sp@[8 * a + b] == 8 * b + a,
        a < 4 && b < 4 ==> single@[8 * a + 2 * b + e] == 8 * b + 2 * a + e,
{
    assert((8 * a + b) / 8 == a && (8 * a + b) % 8 == b);
    assert(sp@[8 * a + b] == repack::scale_perm_at(8 * a + b));
    if a < 4 && b < 4 {
        let d = 8 * a + 2 * b + e;
        assert(d / 8 == a && (d % 8) / 2 == b && d % 2 == e);
        assert(single@[d] == repack::scale_perm_single_at(d));
    }
}

proof fn lemma_in_sixteen(c: int, d: int)
    requires
        0 <= d < 16,
    ensures
        (16 * c + d) / 16 == c,
        (16 * c + d) % 16 == d,
{
}

proof fn lemma_in_tile(c: int, v: int)
    requires
        0 <= v < 1024,
    ensures
        (c * 1024 + v) / 1024 == c,
        (c * 1024 + v) % 1024 == v,
{
}

proof fn lemma_weight_place(
    k: int,
    n: int,
    kt: int,
    nt: int,
    l: int,
    m: int,
    j: int,
    c: int,
    b: int,
    a: int,
)
    requires
        n % 64 == 0,
        0 <= kt && 16 * kt + 16 <= k,
        0 <= nt && 64 * nt + 64 <= n,
        0 <= l < 8,
        0 <= m < 4,
        0 <= j < 4,
        0 <= c < 2,
        0 <= b < 2,
        0 <= a < 2,
    ensures
        repack::marlin_place(
            k,
            n,
            (64 * nt + 16 * j + 8 * c + l) * k + (16 * kt + 8 * b + 2 * m + a),
        ) == 8 * (kt * (2 * n) + 128 * nt + 4 * (4 * l + m) + j) + reading_order(
            4 * c + 2 * b + a,
        ),
{
    reveal(repack::marlin_place);
    reveal(repack::perm_inverse_at);
    let row = 8 * b + 2 * m + a;
    let o = 64 * nt + 16 * j + 8 * c + l;
    let i = 16 * kt + row;
    div_mod::lemma_fundamental_div_mod_converse(o * k + i, k, o, i);
    lemma_in_sixteen(kt, row);
    lemma_in_sixteen(4 * nt + j, 8 * c + l);
    let nb = n / 64;
    assert(16 * n == 1024 * nb);
    assert(kt * (16 * n) == (kt * nb) * 1024) by (nonlinear_arith)
        requires
            16 * n == 1024 * nb,
    ;
    repack::lemma_tile_digits(j, b, m, a, c, l);
    let v = 256 * j + 16 * row + 8 * c + l;
    let r = kt * (16 * n) + (4 * nt + j) * 256 + row * 16 + 8 * c + l;
    assert(r == (kt * nb + nt) * 1024 + v);
    lemma_in_tile(kt * nb + nt, v);
    assert(8 * (kt * (2 * n)) == kt * (16 * n)) by (nonlinear_arith);
    assert(repack::marlin_place(k, n, o * k + i) == (kt * nb + nt) * 1024
        + repack::perm_inverse_at(v));
    let x = 4 * c + 2 * b + a;
    lemma_reading_order(x);
    assert(repack::perm_inverse_at(v) == 32 * (4 * l + m) + 8 * j + reading_order(x));
}

proof fn lemma_reading_order(x: int)
    requires
        0 <= x < 8,
    ensures
        reading_order(x) == if x % 2 == 0 {
            x / 2
        } else {
            (x + 7) / 2
        },
        0 <= reading_order(x) < 8,
{
}

/// Packed weights stand in tiles of 16 inputs by 64 outputs: rows of tiles by input,
/// 128 words a tile, four words for each of 32 lanes. Lane `4 l + m`, fragment `j` has
/// the eight values of outputs `16 j + 8 c + l` and inputs `8 b + 2 m + a`.
pub proof fn law_packed_weights_have_their_place(
    q: &[u8],
    k: usize,
    n: usize,
    words: Vec<i32>,
    kt: int,
    nt: int,
    l: int,
    m: int,
    j: int,
    c: int,
    b: int,
    a: int,
)
    requires
        k % 128 == 0,
        n % 256 == 0,
        q@.len() == k * n,
        forall|x: int| 0 <= x < q@.len() ==> #[trigger] q@[x] < 16,
        call_ensures(repack::pack_marlin_b, (q, k, n), words),
        0 <= kt && 16 * kt < k,
        0 <= nt && 64 * nt < n,
        0 <= l < 8,
        0 <= m < 4,
        0 <= j < 4,
        0 <= c < 2,
        0 <= b < 2,
        0 <= a < 2,
    ensures
        words@.len() * 8 == k * n,
        ({
            let o = 64 * nt + 16 * j + 8 * c + l;
            let i = 16 * kt + 8 * b + 2 * m + a;
            let w = kt * (2 * n) + 128 * nt + 4 * (4 * l + m) + j;
            let t = reading_order(4 * c + 2 * b + a);
            ((words@[w] as u32 >> (4 * t) as u32) & 0xF) as u8 == q@[o * k + i]
        }),
{
    let (k, n) = (k as int, n as int);
    let o = 64 * nt + 16 * j + 8 * c + l;
    let i = 16 * kt + 8 * b + 2 * m + a;
    let x = 4 * c + 2 * b + a;
    let t = reading_order(x);
    let w = kt * (2 * n) + 128 * nt + 4 * (4 * l + m) + j;
    lemma_reading_order(x);
    assert(16 * kt + 16 <= k && 64 * nt + 64 <= n);
    repack::lemma_cell(o, i, n, k);
    assert(n * k == k * n) by (nonlinear_arith);
    let idx = o * k + i;
    repack::law_pack_marlin_b_keeps_values(q@, k, n, idx);
    lemma_weight_place(k, n, kt, nt, l, m, j, c, b, a);
    repack::lemma_word_digits(w, t);
    assert((k * n) % 8 == 0) by (nonlinear_arith)
        requires
            k % 128 == 0,
    {
        let e = k / 128;
        assert(k == 128 * e);
        assert(k * n == 8 * (16 * (e * n)));
    }
    assert(words@[w] == repack::marlin_b_words(q@, k, n)[w]);
}

proof fn lemma_in_square(kt: int, h: int, m: int, a: int)
    requires
        0 <= h < 2,
        0 <= m < 4,
        0 <= a < 4,
    ensures
        ({
            let i = 32 * kt + 16 * h + 4 * m + a;
            let kl = i % 32;
            &&& i / 32 == kt && kl == 16 * h + 4 * m + a
            &&& (kl % 16) / 4 == m && kl % 4 == a && kl / 16 == h
        }),
{
}

proof fn lemma_in_column(nt: int, d: int, c: int, l: int)
    requires
        0 <= d < 2,
        0 <= c < 2,
        0 <= l < 8,
    ensures
        ({
            let o = 32 * nt + 16 * d + 8 * c + l;
            let nl = o % 32;
            &&& o / 32 == nt && nl == 16 * d + 8 * c + l
            &&& nl % 8 == l && nl / 16 == d && (nl % 16) / 8 == c
        }),
{
}

/// Packed weights for 8 bit activations stand in tiles of 32 inputs by 32 outputs: rows
/// of tiles by input, 128 words a tile, four words for each of 32 lanes. Lane `4 l + m`,
/// word `2 d + c` has the eight values of output `16 d + 8 c + l`, its inputs `4 m + a`
/// in the even nibbles and those 16 further on in the odd ones.
pub proof fn law_packed_weights_for_bytes_have_their_place(
    q: &[u8],
    k: usize,
    n: usize,
    words: Vec<i32>,
    kt: int,
    nt: int,
    l: int,
    m: int,
    d: int,
    c: int,
    a: int,
    h: int,
)
    requires
        k % 32 == 0,
        n > 0,
        n % 64 == 0,
        q@.len() == k * n,
        forall|x: int| 0 <= x < q@.len() ==> #[trigger] q@[x] < 16,
        call_ensures(repack::pack_marlin_b_a8, (q, k, n), words),
        0 <= kt && 32 * kt < k,
        0 <= nt && 32 * nt < n,
        0 <= l < 8,
        0 <= m < 4,
        0 <= d < 2,
        0 <= c < 2,
        0 <= a < 4,
        0 <= h < 2,
    ensures
        words@.len() * 8 == k * n,
        ({
            let o = 32 * nt + 16 * d + 8 * c + l;
            let i = 32 * kt + 16 * h + 4 * m + a;
            let w = (kt * (n as int / 32) + nt) * 128 + 4 * (4 * l + m) + 2 * d + c;
            ((words@[w] as u32 >> (4 * (2 * a + h)) as u32) & 0xF) as u8 == q@[o * k + i]
        }),
{
    let (k, n) = (k as int, n as int);
    let o = 32 * nt + 16 * d + 8 * c + l;
    let i = 32 * kt + 16 * h + 4 * m + a;
    let t = 2 * a + h;
    let nts = n / 32;
    let w = (kt * nts + nt) * 128 + 4 * (4 * l + m) + 2 * d + c;
    assert(0 <= i < k && 0 <= o < n);
    repack::lemma_cell(o, i, n, k);
    assert(n * k == k * n) by (nonlinear_arith);
    let idx = o * k + i;
    div_mod::lemma_fundamental_div_mod_converse(idx, k, o, i);
    repack::law_pack_marlin_b_a8_keeps_values(q@, k, n, idx);
    assert(repack::marlin_a8_place(k, n, idx) == 8 * w + t) by {
        reveal(repack::marlin_a8_place);
        lemma_in_square(kt, h, m, a);
        lemma_in_column(nt, d, c, l);
    }
    repack::lemma_word_digits(w, t);
    assert((k * n) % 8 == 0) by (nonlinear_arith)
        requires
            k % 32 == 0,
    {
        let e = k / 32;
        assert(k == 32 * e);
        assert(k * n == 8 * (4 * (e * n)));
    }
    assert(words@[w] == repack::marlin_b_a8_words(q@, k, n)[w]);
}

/// Zero points stand in the grouped order, and in each word in reading order.
pub proof fn law_packed_zero_points_have_their_place(
    zp: &[u8],
    out: usize,
    groups: usize,
    words: Vec<i32>,
    flat: Vec<u8>,
    w: int,
    x: int,
)
    requires
        zp@.len() == out * groups,
        (out * groups) % 64 == 0,
        forall|p: int| 0 <= p < zp@.len() ==> #[trigger] zp@[p] < 16,
        call_ensures(scales::pack_marlin_z, (zp, out, groups), words),
        call_ensures(scales::pack_marlin_s_f32::<u8>, (zp, out, groups), flat),
        0 <= w < words@.len(),
        0 <= x < 8,
    ensures
        words@.len() * 8 == zp@.len(),
        ((words@[w] as u32 >> (4 * reading_order(x)) as u32) & 0xF) as u8 == flat@[8 * w + x],
{
    let (n, m) = (out as int, groups as int);
    let t = reading_order(x);
    let s = 8 * w + t;
    assert(0 <= t < 8 && repack::interleave_at(t) == x);
    repack::lemma_word_digits(w, t);
    let source = |y: int| scales::zero_source(n, m, y);
    let total = zp@.len() as int;
    assert forall|y: int| 0 <= y < 8 * (zp@.len() / 8) implies 0 <= #[trigger] source(y)
        < zp@.len() by {
        let z = 8 * (y / 8) + repack::interleave_at(y % 8);
        assert(0 <= repack::interleave_at(y % 8) < 8);
        assert(0 <= z < total);
        scales::law_grouped_order_is_a_permutation(n, m, z);
    }
    repack::lemma_layout_keeps_values(zp@, source, zp@.len() / 8, s);
    assert(words@[w] == repack::layout_words(zp@, source, zp@.len() / 8)[w]);
    assert(source(s) == scales::permuted_source(n, m, 64, scales::grouped_perm(), 8 * w + x));
}

// ---- Experts ----

proof fn lemma_stacked_part<T>(part: spec_fn(int) -> Seq<T>, len: int, e: int, x: int)
    requires
        forall|y: int| 0 <= y < e ==> (#[trigger] part(y)).len() == len,
        0 <= x < e,
        len >= 0,
    ensures
        moe::stacked(part, e).len() == e * len,
        0 <= x * len && (x + 1) * len <= e * len,
        moe::stacked(part, e).subrange(x * len, (x + 1) * len) == part(x),
    decreases e,
{
    let before = moe::stacked(part, e - 1);
    assert(before.len() == (e - 1) * len) by {
        if e > 1 {
            lemma_stacked_part(part, len, e - 1, 0);
        } else {
            assert((e - 1) * len == 0) by (nonlinear_arith)
                requires
                    e == 1,
            ;
        }
    }
    assert(part(e - 1).len() == len);
    assert((e - 1) * len + len == e * len) by (nonlinear_arith);
    assert(0 <= x * len && (x + 1) * len <= e * len && (x + 1) * len == x * len + len)
        by (nonlinear_arith)
        requires
            0 <= x < e,
            len >= 0,
    ;
    let all = moe::stacked(part, e);
    if x < e - 1 {
        lemma_stacked_part(part, len, e - 1, x);
        assert((x + 1) * len <= (e - 1) * len) by (nonlinear_arith)
            requires
                x + 1 <= e - 1,
                len >= 0,
        ;
        assert(all.subrange(x * len, (x + 1) * len) =~= before.subrange(x * len, (x + 1) * len));
    } else {
        assert(all.subrange(x * len, (x + 1) * len) =~= part(x));
    }
}

/// Experts are packed each for itself and set one behind the other: the words of expert
/// `x` are those of its gate and up projection joined, and of its down projection.
pub proof fn law_experts_are_packed_apart<S: Copy + Send + Sync>(
    gate_q: &[Vec<u8>],
    up_q: &[Vec<u8>],
    down_q: &[Vec<u8>],
    gate_s: &[Vec<S>],
    up_s: &[Vec<S>],
    down_s: &[Vec<S>],
    hidden: usize,
    intermediate: usize,
    group_size: usize,
    r: MoeRepacked<S>,
    x: int,
    joined: &[u8],
    down: &[u8],
    w13: Vec<i32>,
    w2: Vec<i32>,
)
    requires
        call_ensures(
            moe::repack_moe::<S>,
            (
                gate_q,
                up_q,
                down_q,
                gate_s,
                up_s,
                down_s,
                hidden,
                intermediate,
                group_size,
            ),
            r,
        ),
        0 <= x < gate_q@.len(),
        2 * intermediate <= usize::MAX,
        joined@ == gate_q@[x]@ + up_q@[x]@,
        down@ == down_q@[x]@,
        call_ensures(repack::pack_marlin_b, (joined, hidden, (2 * intermediate) as usize), w13),
        call_ensures(repack::pack_marlin_b, (down, intermediate, hidden), w2),
    ensures
        r.w13@.len() == gate_q@.len() * w13@.len(),
        r.w13@.subrange(x * w13@.len(), (x + 1) * w13@.len()) == w13@,
        r.w2@.len() == gate_q@.len() * w2@.len(),
        r.w2@.subrange(x * w2@.len(), (x + 1) * w2@.len()) == w2@,
{
    let e = gate_q@.len() as int;
    let f13 = |x: int|
        repack::marlin_b_words(gate_q@[x]@ + up_q@[x]@, hidden as int, 2 * intermediate);
    let f2 = |x: int|
        repack::marlin_b_words(down_q@[x]@, intermediate as int, hidden as int);
    lemma_stacked_part(f13, w13@.len() as int, e, x);
    lemma_stacked_part(f2, w2@.len() as int, e, x);
}

/// Scales of experts are packed each for itself and set one behind the other.
pub proof fn law_expert_scales_are_packed_apart<S: Copy + Send + Sync>(
    gate_q: &[Vec<u8>],
    up_q: &[Vec<u8>],
    down_q: &[Vec<u8>],
    gate_s: &[Vec<S>],
    up_s: &[Vec<S>],
    down_s: &[Vec<S>],
    hidden: usize,
    intermediate: usize,
    group_size: usize,
    r: MoeRepacked<S>,
    x: int,
    joined: &[S],
    down: &[S],
    w13_s: Vec<S>,
    w2_s: Vec<S>,
)
    requires
        call_ensures(
            moe::repack_moe::<S>,
            (
                gate_q,
                up_q,
                down_q,
                gate_s,
                up_s,
                down_s,
                hidden,
                intermediate,
                group_size,
            ),
            r,
        ),
        0 <= x < gate_q@.len(),
        group_size > 0,
        2 * intermediate <= usize::MAX,
        forall|y: int|
            0 <= y < gate_q@.len() ==> (#[trigger] gate_s@[y])@.len() + up_s@[y]@.len()
                == joined@.len() && down_s@[y]@.len() == down_s@[x]@.len(),
        joined@ == gate_s@[x]@ + up_s@[x]@,
        down@ == down_s@[x]@,
        call_ensures(
            scales::pack_marlin_s_f32::<S>,
            (joined, (2 * intermediate) as usize, hidden / group_size),
            w13_s,
        ),
        call_ensures(
            scales::pack_marlin_s_f32::<S>,
            (down, hidden, intermediate / group_size),
            w2_s,
        ),
    ensures
        r.w13_s@.len() == gate_q@.len() * w13_s@.len(),
        r.w13_s@.subrange(x * w13_s@.len(), (x + 1) * w13_s@.len()) == w13_s@,
        r.w2_s@.len() == gate_q@.len() * w2_s@.len(),
        r.w2_s@.subrange(x * w2_s@.len(), (x + 1) * w2_s@.len()) == w2_s@,
{
    let e = gate_q@.len() as int;
    let f13s = |x: int|
        moe::grouped_scales(
            gate_s@[x]@ + up_s@[x]@,
            2 * intermediate,
            hidden as int / group_size as int,
        );
    let f2s = |x: int|
        moe::grouped_scales(down_s@[x]@, hidden as int, intermediate as int / group_size as int);
    assert forall|y: int| 0 <= y < e implies (#[trigger] f13s(y)).len() == w13_s@.len() by {
        let _ = gate_s@[y];
    }
    assert forall|y: int| 0 <= y < e implies (#[trigger] f2s(y)).len() == w2_s@.len() by {
        let _ = gate_s@[y];
    }
    lemma_stacked_part(f13s, w13_s@.len() as int, e, x);
    lemma_stacked_part(f2s, w2_s@.len() as int, e, x);
}

/// The sorted tokens fill whole blocks, each block holds tokens of the expert that is
/// named for it or padding, and the number told is theirs.
pub proof fn law_blocks_hold_tokens_of_their_expert(
    ids: &[i32],
    tokens: usize,
    topk: usize,
    block: usize,
    experts: usize,
    r: MoeAlign,
    y: int,
)
    requires
        call_ensures(moe::moe_align_block_size, (ids, tokens, topk, block, experts), r),
        block > 0,
        experts <= 0x8000_0000,
        ids@.len() <= i32::MAX,
        0 <= y < r.sorted_token_ids@.len(),
    ensures
        r.sorted_token_ids@.len() == block * r.expert_ids@.len(),
        r.num_tokens_post_padded@.len() == 1,
        r.sorted_token_ids@.len() <= i32::MAX ==> r.num_tokens_post_padded@[0]
            == r.sorted_token_ids@.len(),
        0 <= y / block as int,
        (y / block as int) < r.expert_ids@.len(),
        ({
            let v = r.sorted_token_ids@[y];
            let e = r.expert_ids@[y / block as int];
            &&& 0 <= e < experts
            &&& v == ids@.len() || (0 <= v < ids@.len() && ids@[v as int] == e)
        }),
{
    moe::law_align_fills_whole_blocks(ids@, block as int, experts as int);
    moe::law_align_blocks_name_their_expert(ids@, block as int, experts as int, y);
}

/// Every routed token stands in the sorted order, and once.
pub proof fn law_every_token_is_sorted_once(
    ids: &[i32],
    tokens: usize,
    topk: usize,
    block: usize,
    experts: usize,
    r: MoeAlign,
    p: int,
) -> (y: int)
    requires
        call_ensures(moe::moe_align_block_size, (ids, tokens, topk, block, experts), r),
        block > 0,
        ids@.len() <= i32::MAX,
        0 <= p < ids@.len(),
        0 <= ids@[p] < experts,
    ensures
        0 <= y < r.sorted_token_ids@.len(),
        r.sorted_token_ids@[y] == p,
        forall|z: int|
            0 <= z < r.sorted_token_ids@.len() && #[trigger] r.sorted_token_ids@[z] == p ==> z == y,
{
    let y = moe::law_align_keeps_every_token(ids@, block as int, experts as int, p);
    let s = moe::segments(ids@, block as int, experts as int);
    assert forall|z: int|
        0 <= z < r.sorted_token_ids@.len() && #[trigger] r.sorted_token_ids@[z] == p implies z
        == y by {
        moe::law_align_blocks_name_their_expert(ids@, block as int, experts as int, z);
        if z < y {
            moe::law_align_keeps_tokens_once(ids@, block as int, experts as int, z, y);
        } else if y < z {
            moe::law_align_keeps_tokens_once(ids@, block as int, experts as int, y, z);
        }
    }
    y
}

proof fn lemma_sorted_place(ids: Seq<i32>, block: int, e: int, y: int) -> (r: (int, int))
    requires
        block > 0,
        e >= 0,
        0 <= y < moe::segments(ids, block, e).len(),
    ensures
        ({
            let (x, z) = r;
            &&& 0 <= x < e
            &&& 0 <= z < moe::expert_segment(ids, block, x).len()
            &&& y == moe::segments(ids, block, x).len() + z
            &&& moe::segments(ids, block, e)[y] == moe::expert_segment(ids, block, x)[z]
            &&& 0 <= y / block < moe::block_experts(ids, block, e).len()
            &&& moe::block_experts(ids, block, e)[y / block] == x
        }),
    decreases e,
{
    moe::law_align_blocks_name_their_expert(ids, block, e, y);
    if e <= 0 {
        (0, 0)
    } else {
        let before = moe::segments(ids, block, e - 1);
        let l = before.len() as int;
        moe::law_align_fills_whole_blocks(ids, block, e - 1);
        let m = moe::block_experts(ids, block, e - 1).len() as int;
        if y < l {
            let (x, z) = lemma_sorted_place(ids, block, e - 1, y);
            assert(moe::segments(ids, block, e)[y] == before[y]);
            assert(moe::block_experts(ids, block, e)[y / block] == moe::block_experts(
                ids,
                block,
                e - 1,
            )[y / block]);
            (x, z)
        } else {
            let z = y - l;
            assert(y / block >= m) by (nonlinear_arith)
                requires
                    y >= block * m,
                    block > 0,
            ;
            (e - 1, z)
        }
    }
}

proof fn lemma_segments_grow(ids: Seq<i32>, block: int, a: int, b: int)
    requires
        0 <= a <= b,
    ensures
        moe::segments(ids, block, a).len() <= moe::segments(ids, block, b).len(),
        a < b ==> moe::segments(ids, block, a).len() + moe::expert_segment(ids, block, a).len()
            <= moe::segments(ids, block, b).len(),
    decreases b,
{
    if a < b {
        lemma_segments_grow(ids, block, a, b - 1);
    }
}

proof fn lemma_own_ascends(ids: Seq<i32>, expert: int)
    ensures
        forall|x: int|
            0 <= x < moe::routed_to(ids, expert).len() ==> 0 <= #[trigger] moe::routed_to(
                ids,
                expert,
            )[x] < ids.len(),
        forall|x: int, y: int|
            0 <= x < y < moe::routed_to(ids, expert).len() ==> #[trigger] moe::routed_to(
                ids,
                expert,
            )[x] < #[trigger] moe::routed_to(ids, expert)[y],
    decreases ids.len(),
{
    if ids.len() > 0 {
        let s = ids.drop_last();
        lemma_own_ascends(s, expert);
        let (own, inner) = (moe::routed_to(ids, expert), moe::routed_to(s, expert));
        assert forall|x: int| 0 <= x < own.len() implies 0 <= #[trigger] own[x] < ids.len() by {
            if x < inner.len() {
                assert(own[x] == inner[x]);
            }
        }
        assert forall|x: int, y: int| 0 <= x < y < own.len() implies #[trigger] own[x]
            < #[trigger] own[y] by {
            assert(own[x] == inner[x]);
            if y < inner.len() {
                assert(own[y] == inner[y]);
            }
        }
    }
}

/// Experts come in order, and within one its tokens ascend before its padding.
pub proof fn law_sorted_tokens_ascend(
    ids: &[i32],
    tokens: usize,
    topk: usize,
    block: usize,
    experts: usize,
    r: MoeAlign,
    y: int,
)
    requires
        call_ensures(moe::moe_align_block_size, (ids, tokens, topk, block, experts), r),
        block > 0,
        experts <= 0x8000_0000,
        ids@.len() <= i32::MAX,
        0 <= y && y + 1 < r.sorted_token_ids@.len(),
    ensures
        ({
            let (a, b) = (r.sorted_token_ids@[y], r.sorted_token_ids@[y + 1]);
            let (ea, eb) = (
                r.expert_ids@[y / block as int],
                r.expert_ids@[(y + 1) / block as int],
            );
            &&& ea <= eb
            &&& ea == eb ==> a < b || b == ids@.len()
        }),
{
    let (n, e) = (block as int, experts as int);
    let (x1, z1) = lemma_sorted_place(ids@, n, e, y);
    let (x2, z2) = lemma_sorted_place(ids@, n, e, y + 1);
    if x2 < x1 {
        lemma_segments_grow(ids@, n, x2, x1);
    }
    lemma_own_ascends(ids@, x1);
    let own = moe::routed_to(ids@, x1);
    if x1 == x2 {
        assert(z2 == z1 + 1);
        if z2 < own.len() {
            assert(own[z1] < own[z2]);
        }
    }
}

/// No block is padding alone: it starts with a token.
pub proof fn law_blocks_start_with_a_token(
    ids: &[i32],
    tokens: usize,
    topk: usize,
    block: usize,
    experts: usize,
    r: MoeAlign,
    b: int,
)
    requires
        call_ensures(moe::moe_align_block_size, (ids, tokens, topk, block, experts), r),
        block > 0,
        ids@.len() <= i32::MAX,
        0 <= b < r.expert_ids@.len(),
    ensures
        0 <= b * block < r.sorted_token_ids@.len(),
        r.sorted_token_ids@[b * block] < ids@.len(),
{
    let (n, e) = (block as int, experts as int);
    moe::law_align_fills_whole_blocks(ids@, n, e);
    let c = r.expert_ids@.len() as int;
    assert(0 <= b * n < n * c) by (nonlinear_arith)
        requires
            0 <= b < c,
            n > 0,
    ;
    let (x, z) = lemma_sorted_place(ids@, n, e, b * n);
    moe::law_align_fills_whole_blocks(ids@, n, x);
    let m = moe::block_experts(ids@, n, x).len() as int;
    let own = moe::routed_to(ids@, x).len() as int;
    let k = moe::blocks_for(own, n);
    assert(z == (b - m) * n) by (nonlinear_arith)
        requires
            b * n == n * m + z,
    ;
    assert(z < own) by (nonlinear_arith)
        requires
            z == (b - m) * n,
            0 <= z < k * n,
            n > 0,
            own >= 0,
            k == if own % n == 0 {
                own / n
            } else {
                own / n + 1
            },
    {
        let d = b - m;
        assert(d < k);
        assert(own == n * (own / n) + own % n);
        if own % n == 0 {
            assert(d * n < k * n);
            assert(k * n == own);
        } else {
            assert(d <= own / n);
            assert(d * n <= (own / n) * n);
        }
    }
    lemma_own_ascends(ids@, x);
}

// ---- Launches ----

/// The workspace has 128 words for every whole 64 columns.
pub proof fn law_workspace_grows_by_column_tiles(n: usize, r: usize, m: usize, s: usize)
    requires
        call_ensures(marlin::v2_workspace_len, (n,), r),
        call_ensures(marlin::v2_workspace_len, (m,), s),
    ensures
        n < 64 ==> r == 0,
        m == n + 64 ==> s == r + 128,
        n <= m ==> r <= s,
        r * 64 <= n * 128 < r * 64 + 64 * 128,
{
}

/// The reduction buffer has 256 singles for each row of a block and multiprocessor.
/// The rows are the least whole tiles of 16 that hold `m`, and at most 64.
pub proof fn law_reduction_buffer_holds_a_block(m: usize, sms: usize, r: usize, rows: int)
    requires
        call_ensures(marlin::c_tmp_float_len_v2, (m, sms), r),
        rows % 16 == 0,
        m <= rows < m + 16,
    ensures
        rows <= 64 ==> r == sms * rows * 256,
        rows > 64 ==> r == sms * 64 * 256,
{
    assert((m + 15) / 16 * 16 == rows);
}

/// A launch succeeds with code zero alone, and its error is the code.
pub proof fn law_launches_tell_their_code(code: i32, r: Result<(), i32>)
    requires
        call_ensures(marlin::launch_outcome, (code,), r),
    ensures
        r is Ok == (code == 0),
        r matches Err(e) ==> e == code,
{
}

/// The codes of the launcher have a text each, and all others share one.
pub proof fn law_codes_have_their_text(err: i32, r: &'static str)
    requires
        call_ensures(marlin::v2_err_str, (err,), r),
    ensures
        err == 3 ==> r@ == "no kernel config for this shape/dtype"@,
        err == 4 ==> r@ == "invalid m/n/k/groupsize"@,
        err == 5 ==> r@ == "device capability < 7.5 or query failed"@,
        !(3 <= err <= 5) ==> r@ == "see cudaGetErrorString(经 server 映射)"@,
{
}

/// One name alone asks for the product.
pub proof fn law_one_name_asks_for_the_product(name: &str, r: bool)
    requires
        call_ensures(marlin::is_foreign, (name,), r),
    ensures
        r == (name@ == "marlin_gemm_w4a16"@),
{
}

} // verus!
