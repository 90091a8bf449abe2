//! Scale and zero point layouts of the marlin kernels.
//!
//! Scales come row major `(out, groups)`. The kernels read them transposed, row
//! major `(groups, out)`, with every chunk of the flat order permuted.

use super::repack;
use crate::f16c;
use vstd::arithmetic::div_mod;
use vstd::prelude::*;

verus! {

/// Where the transposed and chunk permuted order takes element `p` from, in the
/// row major `(out, groups)` order.
pub open spec fn permuted_source(
    out: int,
    groups: int,
    chunk: int,
    perm: spec_fn(int) -> int,
    p: int,
) -> int {
    let f = (p / chunk) * chunk + perm(p % chunk);
    (f % out) * groups + f / out
}

/// The transposed and chunk permuted order of `x`.
pub open spec fn permuted_scales<T>(
    x: Seq<T>,
    out: int,
    groups: int,
    chunk: int,
    perm: spec_fn(int) -> int,
) -> Seq<T> {
    Seq::new(x.len(), |p: int| x[permuted_source(out, groups, chunk, perm, p)])
}

/// The permutation of grouped scales, as a function.
pub open spec fn grouped_perm() -> spec_fn(int) -> int {
    |d: int| repack::scale_perm_at(d)
}

/// The permutation of scales for 8 bit activations, as a function.
pub open spec fn single_perm() -> spec_fn(int) -> int {
    |d: int| repack::scale_perm_single_at(d)
}

proof fn lemma_in_chunk(p: int, d: int, chunk: int, total: int)
    by (nonlinear_arith)
    requires
        chunk > 0,
        total % chunk == 0,
        0 <= p < total,
        0 <= d < chunk,
    ensures
        0 <= (p / chunk) * chunk,
        (p / chunk) * chunk + d < total,
        0 <= p % chunk < chunk,
{
    let m = total / chunk;
    let c = p / chunk;
    assert(total == m * chunk);
    assert(p == c * chunk + p % chunk);
    assert(c < m);
    assert((c + 1) * chunk <= m * chunk);
}

proof fn lemma_transposed(f: int, out: int, groups: int)
    by (nonlinear_arith)
    requires
        0 <= f < out * groups,
        out > 0,
        groups >= 0,
    ensures
        0 <= f / out < groups,
        0 <= f % out < out,
        0 <= (f % out) * groups <= (f % out) * groups + f / out < out * groups,
        (f / out) * out + f % out == f,
{
}

proof fn lemma_out_positive(f: int, out: int, groups: int)
    by (nonlinear_arith)
    requires
        0 <= f < out * groups,
        out >= 0,
        groups >= 0,
    ensures
        out > 0,
        groups > 0,
{
}

/// Every element of the permuted order comes from an element of the source.
pub proof fn lemma_permuted_source_in_range(
    out: int,
    groups: int,
    chunk: int,
    perm: spec_fn(int) -> int,
    p: int,
)
    requires
        out >= 0,
        groups >= 0,
        chunk > 0,
        (out * groups) % chunk == 0,
        0 <= p < out * groups,
        0 <= perm(p % chunk) < chunk,
    ensures
        0 <= permuted_source(out, groups, chunk, perm, p) < out * groups,
{
    lemma_in_chunk(p, perm(p % chunk), chunk, out * groups);
    let f = (p / chunk) * chunk + perm(p % chunk);
    lemma_out_positive(f, out, groups);
    lemma_transposed(f, out, groups);
}

/// Transposes and permutes by chunks of the length of `sp`.
fn permute<T: Copy>(
    x: &[T],
    out: usize,
    groups: usize,
    sp: &Vec<usize>,
    perm: Ghost<spec_fn(int) -> int>,
) -> (r: Vec<T>)
    requires
        x@.len() == out * groups,
        sp@.len() > 0,
        x@.len() % sp@.len() == 0,
        forall|d: int|
            0 <= d < sp@.len() ==> (#[trigger] sp@[d]) < sp@.len() && sp@[d] == (perm@)(d),
    ensures
        r@ == permuted_scales(x@, out as int, groups as int, sp@.len() as int, perm@),
{
    let total: usize = x.len();
    let chunk: usize = sp.len();
    let mut r: Vec<T> = Vec::with_capacity(total);
    let mut p: usize = 0;
    while p < total
        invariant
            p <= total,
            total == x@.len(),
            x@.len() == out * groups,
            chunk == sp@.len(),
            chunk > 0,
            total as int % chunk as int == 0,
            forall|d: int|
                0 <= d < sp@.len() ==> (#[trigger] sp@[d]) < sp@.len() && sp@[d] == (perm@)(d),
            r@.len() == p,
            forall|e: int|
                0 <= e < p ==> #[trigger] r@[e] == x@[permuted_source(
                    out as int,
                    groups as int,
                    chunk as int,
                    perm@,
                    e,
                )],
        decreases total - p,
    {
        proof {
            div_mod::lemma_mod_bound(p as int, chunk as int);
            lemma_in_chunk(p as int, sp@[p as int % chunk as int] as int, chunk as int, total as int);
            let f = (p as int / chunk as int) * chunk + sp@[p as int % chunk as int];
            lemma_out_positive(f, out as int, groups as int);
            lemma_transposed(f, out as int, groups as int);
        }
        let f: usize = (p / chunk) * chunk + sp[p % chunk];
        r.push(x[(f % out) * groups + f / out]);
        p += 1;
    }
    proof {
        assert(r@ =~= permuted_scales(x@, out as int, groups as int, chunk as int, perm@));
    }
    r
}

/// Scales `(out, groups)` to the grouped kernel order, unconverted.
pub fn pack_marlin_s_f32<T: Copy>(scales: &[T], out: usize, groups: usize) -> (r: Vec<T>)
    requires
        scales@.len() == out * groups,
        (out * groups) % 64 == 0,
    ensures
        r@ == permuted_scales(scales@, out as int, groups as int, 64, grouped_perm()),
{
    let sp: Vec<usize> = repack::marlin_scale_perm();
    proof {
        assert forall|d: int| 0 <= d < 64 implies (#[trigger] sp@[d]) < 64 && sp@[d] == (
        grouped_perm())(d) by {
            repack::law_scale_perm_is_involution(d);
        }
    }
    permute(scales, out, groups, &sp, Ghost(grouped_perm()))
}

/// The place of element `idx` of the row major `(out, groups)` order in the grouped
/// kernel order.
#[verifier::opaque]
pub open spec fn grouped_place(out: int, groups: int, idx: int) -> int {
    let f = (idx % groups) * out + idx / groups;
    (f / 64) * 64 + repack::scale_perm_at(f % 64)
}

/// The grouped kernel order is a permutation: every scale stands at its place,
/// and every place holds a scale.
pub proof fn law_grouped_order_is_a_permutation(out: int, groups: int, idx: int)
    requires
        out >= 0,
        groups >= 0,
        (out * groups) % 64 == 0,
        0 <= idx < out * groups,
    ensures
        0 <= grouped_place(out, groups, idx) < out * groups,
        permuted_source(out, groups, 64, grouped_perm(), grouped_place(out, groups, idx)) == idx,
        0 <= permuted_source(out, groups, 64, grouped_perm(), idx) < out * groups,
        grouped_place(out, groups, permuted_source(out, groups, 64, grouped_perm(), idx)) == idx,
{
    reveal(grouped_place);
    lemma_out_positive(idx, out, groups);
    // A scale stands at its place.
    repack::lemma_row_col(idx, out, groups);
    let o = idx / groups;
    let g = idx % groups;
    repack::lemma_cell(g, o, groups, out);
    assert(groups * out == out * groups) by (nonlinear_arith);
    let f = g * out + o;
    repack::law_scale_perm_is_involution(f % 64);
    lemma_in_chunk(f, repack::scale_perm_at(f % 64), 64, out * groups);
    lemma_sixty_four(f / 64, repack::scale_perm_at(f % 64));
    div_mod::lemma_fundamental_div_mod_converse(f, out, g, o);
    // A place holds a scale.
    repack::law_scale_perm_is_involution(idx % 64);
    lemma_permuted_source_in_range(out, groups, 64, grouped_perm(), idx);
    let h = (idx / 64) * 64 + repack::scale_perm_at(idx % 64);
    lemma_in_chunk(idx, repack::scale_perm_at(idx % 64), 64, out * groups);
    lemma_sixty_four(idx / 64, repack::scale_perm_at(idx % 64));
    lemma_transposed(h, out, groups);
    div_mod::lemma_fundamental_div_mod_converse(
        (h % out) * groups + h / out,
        groups,
        h % out,
        h / out,
    );
}

proof fn lemma_sixty_four(c: int, d: int)
    requires
        0 <= d < 64,
    ensures
        (c * 64 + d) / 64 == c,
        (c * 64 + d) % 64 == d,
{
}

/// Single precision scales `(out, groups)` to halves in the grouped kernel order.
pub fn pack_marlin_s(scales: &[u32], out: usize, groups: usize) -> (r: Vec<u16>)
    requires
        scales@.len() == out * groups,
        (out * groups) % 64 == 0,
    ensures
        r@.len() == scales@.len(),
        forall|p: int|
            0 <= p < r@.len() ==> #[trigger] r@[p] == f16c::half_of_single(
                permuted_scales(scales@, out as int, groups as int, 64, grouped_perm())[p],
            ),
{
    let flat: Vec<u32> = pack_marlin_s_f32(scales, out, groups);
    let n: usize = flat.len();
    let mut r: Vec<u16> = Vec::with_capacity(n);
    let mut p: usize = 0;
    while p < n
        invariant
            p <= n,
            n == flat@.len(),
            r@.len() == p,
            forall|e: int| 0 <= e < p ==> #[trigger] r@[e] == f16c::half_of_single(flat@[e]),
        decreases n - p,
    {
        r.push(f16c::half_bits(flat[p]));
        p += 1;
    }
    r
}

/// The largest of the singles that are neither negative nor NaN, as bits; 0 where
/// there is none. The order of such singles is the order of their bits.
pub open spec fn max_single(x: Seq<u32>) -> u32
    decreases x.len(),
{
    if x.len() == 0 {
        0
    } else {
        let m = max_single(x.drop_last());
        if x.last() <= 0x7f80_0000 && x.last() > m {
            x.last()
        } else {
            m
        }
    }
}

fn max_of(x: &[u32]) -> (m: u32)
    ensures
        m == max_single(x@),
{
    let n: usize = x.len();
    let mut m: u32 = 0;
    let mut i: usize = 0;
    while i < n
        invariant
            i <= n,
            n == x@.len(),
            m == max_single(x@.take(i as int)),
        decreases n - i,
    {
        assert(x@.take(i as int + 1).drop_last() =~= x@.take(i as int));
        let v: u32 = x[i];
        if v <= 0x7f80_0000 && v > m {
            m = v;
        }
        i += 1;
    }
    assert(x@.take(n as int) =~= x@);
    m
}

/// A rounded scale in the range of a non-negative `i16`.
pub open spec fn clamped(q: i64) -> u16 {
    if q < 0 {
        0
    } else if q > 32767 {
        32767
    } else {
        q as u16
    }
}

/// Integer scales for 8 bit activations, in the single kernel order, and the
/// largest scale as bits. `quantize` gets a scale and the largest scale and
/// rounds `scale / largest * 4096`. When the largest scale is zero all integers
/// are zero and nothing is quantized. The global factor, which the kernel does not
/// apply, is the largest scale divided by 4096.
pub fn pack_marlin_s_a8<F: Fn(u32, u32) -> i64>(
    scales: &[u32],
    out: usize,
    groups: usize,
    quantize: F,
) -> (r: (Vec<u16>, u32))
    requires
        scales@.len() == out * groups,
        max_single(scales@) != 0 ==> (out * groups) % 32 == 0,
        forall|v: u32| scales@.contains(v) ==> call_requires(quantize, (v, max_single(scales@))),
    ensures
        r.1 == max_single(scales@),
        r.0@.len() == scales@.len(),
        r.1 == 0 ==> forall|p: int| 0 <= p < r.0@.len() ==> #[trigger] r.0@[p] == 0,
        r.1 != 0 ==> exists|qs: Seq<i64>| #[trigger]
            quantized(
                quantize,
                permuted_scales(scales@, out as int, groups as int, 32, single_perm()),
                r.1,
                qs,
            ) && r.0@ == Seq::new(qs.len(), |p: int| clamped(qs[p])),
{
    let max: u32 = max_of(scales);
    if max == 0 {
        let mut zeros: Vec<u16> = Vec::with_capacity(scales.len());
        let n: usize = scales.len();
        let mut i: usize = 0;
        while i < n
            invariant
                i <= n,
                zeros@.len() == i,
                forall|p: int| 0 <= p < i ==> #[trigger] zeros@[p] == 0,
            decreases n - i,
        {
            zeros.push(0);
            i += 1;
        }
        return (zeros, 0);
    }
    let sp: Vec<usize> = repack::marlin_scale_perm_single();
    proof {
        assert forall|d: int| 0 <= d < 32 implies (#[trigger] sp@[d]) < 32 && sp@[d] == (
        single_perm())(d) by {
            repack::law_scale_perm_single_is_bijective(d);
        }
    }
    let flat: Vec<u32> = permute(scales, out, groups, &sp, Ghost(single_perm()));
    let n: usize = flat.len();
    let mut bits: Vec<u16> = Vec::with_capacity(n);
    let ghost mut qs: Seq<i64> = Seq::empty();
    let mut p: usize = 0;
    while p < n
        invariant
            p <= n,
            n == flat@.len(),
            scales@.len() == out * groups,
            (out * groups) % 32 == 0,
            flat@ == permuted_scales(scales@, out as int, groups as int, 32, single_perm()),
            max == max_single(scales@),
            forall|v: u32|
                scales@.contains(v) ==> call_requires(quantize, (v, max_single(scales@))),
            qs.len() == p,
            forall|e: int|
                0 <= e < p ==> call_ensures(quantize, (flat@[e], max), #[trigger] qs[e]),
            bits@ == Seq::new(qs.len(), |e: int| clamped(qs[e])),
        decreases n - p,
    {
        proof {
            repack::law_scale_perm_single_is_bijective(p as int % 32);
            lemma_permuted_source_in_range(
                out as int,
                groups as int,
                32,
                single_perm(),
                p as int,
            );
            assert(scales@.contains(flat@[p as int]));
        }
        let q: i64 = quantize(flat[p], max);
        let c: u16 = if q < 0 {
            0
        } else if q > 32767 {
            32767
        } else {
            q as u16
        };
        bits.push(c);
        proof {
            qs = qs.push(q);
        }
        p += 1;
    }
    assert(quantized(quantize, flat@, max, qs));
    (bits, max)
}

/// `qs` is what `quantize` may answer for the scales `x`, one by one.
pub open spec fn quantized<F: Fn(u32, u32) -> i64>(
    quantize: F,
    x: Seq<u32>,
    max: u32,
    qs: Seq<i64>,
) -> bool {
    &&& qs.len() == x.len()
    &&& forall|e: int| 0 <= e < x.len() ==> call_ensures(quantize, (x[e], max), #[trigger] qs[e])
}

/// Zero points packed along `out`, `(out / 8, groups)` words, to row major
/// `(out, groups)` values. Rows past the last whole word are zero.
pub fn unpack_zp_ct(packed: &[i32], out: usize, groups: usize) -> (z: Vec<u8>)
    requires
        packed@.len() == (out / 8) * groups,
        out * groups <= usize::MAX,
    ensures
        z@.len() == out * groups,
        forall|r: int, c: int|
            0 <= r < out && 0 <= c < groups ==> #[trigger] z@[r * groups + c] == if r < (out / 8)
                * 8 {
                repack::nibble(packed@[(r / 8) * groups + c], r % 8)
            } else {
                0
            },
{
    let total: usize = packed.len();
    let whole: usize = (out / 8) * 8;
    let mut z: Vec<u8> = Vec::with_capacity(out * groups);
    let mut r: usize = 0;
    while r < out
        invariant
            r <= out,
            whole == (out / 8) * 8,
            total == packed@.len(),
            packed@.len() == (out / 8) * groups,
            z@.len() == r * groups,
            forall|a: int, c: int|
                0 <= a < r && 0 <= c < groups ==> #[trigger] z@[a * groups + c] == if a < whole {
                    repack::nibble(packed@[(a / 8) * groups + c], a % 8)
                } else {
                    0
                },
        decreases out - r,
    {
        let mut c: usize = 0;
        while c < groups
            invariant
                c <= groups,
                r < out,
                whole == (out / 8) * 8,
                total == packed@.len(),
                packed@.len() == (out / 8) * groups,
                z@.len() == r * groups + c,
                forall|a: int, b: int|
                    0 <= a < r && 0 <= b < groups ==> #[trigger] z@[a * groups + b] == if a
                        < whole {
                        repack::nibble(packed@[(a / 8) * groups + b], a % 8)
                    } else {
                        0
                    },
                forall|b: int|
                    0 <= b < c ==> #[trigger] z@[r * groups + b] == if r < whole {
                        repack::nibble(packed@[(r as int / 8) * groups + b], r as int % 8)
                    } else {
                        0
                    },
            decreases groups - c,
        {
            let b: u8 = if r < whole {
                proof {
                    repack::lemma_cell(r as int / 8, c as int, out as int / 8, groups as int);
                }
                let v: u32 = packed[(r / 8) * groups + c] as u32;
                let nib: u32 = (r % 8) as u32;
                ((v >> (4 * nib)) & 0xF) as u8
            } else {
                0
            };
            let ghost before = z@;
            z.push(b);
            proof {
                assert forall|a: int, d: int| 0 <= a < r && 0 <= d < groups implies
                    #[trigger] z@[a * groups + d] == before[a * groups + d] by {
                    repack::lemma_cell(a, d, r as int, groups as int);
                }
            }
            c += 1;
        }
        proof {
            assert((r + 1) * groups == r * groups + groups) by (nonlinear_arith);
        }
        r += 1;
    }
    z
}

/// Where the zero point layout takes nibble `s` from.
pub open spec fn zero_source(out: int, groups: int, s: int) -> int {
    permuted_source(
        out,
        groups,
        64,
        grouped_perm(),
        8 * (s / 8) + repack::interleave_at(s % 8),
    )
}

/// The words of the zero point layout.
pub open spec fn marlin_z_words(zp: Seq<u8>, out: int, groups: int) -> Seq<i32> {
    repack::layout_words(zp, |s: int| zero_source(out, groups, s), zp.len() / 8)
}

/// Zero points `(out, groups)` to `(groups, out / 8)` words: the grouped kernel
/// order, with the eight values of a word interleaved.
pub fn pack_marlin_z(zp: &[u8], out: usize, groups: usize) -> (r: Vec<i32>)
    requires
        zp@.len() == out * groups,
        (out * groups) % 64 == 0,
        out % 8 == 0,
    ensures
        r@ == marlin_z_words(zp@, out as int, groups as int),
{
    let il: [usize; 8] = [0, 2, 4, 6, 1, 3, 5, 7];
    let z: Vec<u8> = pack_marlin_s_f32(zp, out, groups);
    let n: usize = z.len();
    let words: usize = n / 8;
    let mut r: Vec<i32> = Vec::with_capacity(words);
    let ghost source = |s: int| zero_source(out as int, groups as int, s);
    let mut w: usize = 0;
    while w < words
        invariant
            w <= words,
            words == n / 8,
            n == z@.len(),
            n == zp@.len(),
            z@ == permuted_scales(zp@, out as int, groups as int, 64, grouped_perm()),
            forall|t: int| 0 <= t < 8 ==> #[trigger] il@[t] == repack::interleave_at(t),
            source == (|s: int| zero_source(out as int, groups as int, s)),
            r@.len() == w,
            forall|x: int|
                0 <= x < w ==> #[trigger] r@[x] == repack::packed_bits(
                    repack::gathered(zp@, source, x),
                ) as i32,
        decreases words - w,
    {
        let ghost vals = repack::gathered(zp@, source, w as int);
        let mut v: u32 = 0;
        let mut j: usize = 0;
        assert(vals.take(0) =~= Seq::empty());
        while j < 8
            invariant
                j <= 8,
                w < words,
                words == n / 8,
                n == z@.len(),
                n == zp@.len(),
                z@ == permuted_scales(zp@, out as int, groups as int, 64, grouped_perm()),
                forall|t: int| 0 <= t < 8 ==> #[trigger] il@[t] == repack::interleave_at(t),
                source == (|s: int| zero_source(out as int, groups as int, s)),
                vals == repack::gathered(zp@, source, w as int),
                v == repack::packed_bits(vals.take(j as int)),
            decreases 8 - j,
        {
            let at: usize = il[j];
            proof {
                assert(at == repack::interleave_at(j as int));
                assert(vals.take(j as int + 1).drop_last() =~= vals.take(j as int));
                assert((8 * w + j) / 8 == w && (8 * w + j) % 8 == j);
                assert(vals[j as int] == zp@[source(8 * w + j)]);
                assert(z@[8 * w + at] == vals[j as int]);
            }
            v = v | ((z[8 * w + at] as u32) << (4 * j as u32));
            j += 1;
        }
        assert(vals.take(8) =~= vals);
        r.push(v as i32);
        w += 1;
    }
    proof {
        assert(r@ =~= marlin_z_words(zp@, out as int, groups as int));
    }
    r
}

/// The place of zero point `idx` among the nibbles of the packed words.
pub open spec fn zero_place(out: int, groups: int, idx: int) -> int {
    let p = grouped_place(out, groups, idx);
    let x = p % 8;
    8 * (p / 8) + if x % 2 == 0 {
        x / 2
    } else {
        (x + 7) / 2
    }
}

proof fn lemma_unleaved(p: int, total: int)
    requires
        0 <= p < total,
        total % 8 == 0,
    ensures
        ({
            let x = p % 8;
            let s = 8 * (p / 8) + if x % 2 == 0 {
                x / 2
            } else {
                (x + 7) / 2
            };
            &&& 0 <= s < total
            &&& 8 * (s / 8) + repack::interleave_at(s % 8) == p
        }),
{
    lemma_unleaved_digit(p % 8);
    let b = p / 8;
    let x = p % 8;
    assert(p == 8 * b + x);
    assert(8 * b + 8 <= total) by {
        let m = total / 8;
        assert(total == 8 * m);
        assert(b < m);
    }
    repack::lemma_word_digits(
        b,
        if x % 2 == 0 {
            x / 2
        } else {
            (x + 7) / 2
        },
    );
}

proof fn lemma_unleaved_digit(x: int)
    requires
        0 <= x < 8,
    ensures
        ({
            let t = if x % 2 == 0 {
                x / 2
            } else {
                (x + 7) / 2
            };
            0 <= t < 8 && repack::interleave_at(t) == x
        }),
{
}

proof fn lemma_leaved(s: int, total: int)
    requires
        0 <= s < total,
        total % 8 == 0,
    ensures
        0 <= 8 * (s / 8) + repack::interleave_at(s % 8) < total,
{
    let b = s / 8;
    let m = total / 8;
    assert(total == 8 * m && b < m && b >= 0);
    lemma_interleave_range(s % 8);
}

proof fn lemma_interleave_range(t: int)
    requires
        0 <= t < 8,
    ensures
        0 <= repack::interleave_at(t) < 8,
{
}

/// Packing zero points loses nothing: nibble `zero_place(idx)` is zero point `idx`,
/// for zero points below 16.
pub proof fn law_pack_marlin_z_keeps_values(zp: Seq<u8>, out: int, groups: int, idx: int)
    requires
        out >= 0,
        groups >= 0,
        zp.len() == out * groups,
        (out * groups) % 64 == 0,
        forall|x: int| 0 <= x < zp.len() ==> #[trigger] zp[x] < 16,
        0 <= idx < zp.len(),
    ensures
        ({
            let s = zero_place(out, groups, idx);
            nibble_of(marlin_z_words(zp, out, groups), s) == zp[idx]
        }),
{
    let total = out * groups;
    law_grouped_order_is_a_permutation(out, groups, idx);
    let p = grouped_place(out, groups, idx);
    let s = zero_place(out, groups, idx);
    assert(total % 8 == 0);
    lemma_unleaved(p, total);
    let source = |x: int| zero_source(out, groups, x);
    assert forall|x: int| 0 <= x < 8 * (zp.len() / 8) implies 0 <= #[trigger] source(x)
        < zp.len() by {
        let y = 8 * (x / 8) + repack::interleave_at(x % 8);
        lemma_leaved(x, total);
        law_grouped_order_is_a_permutation(out, groups, y);
    }
    repack::lemma_layout_keeps_values(zp, source, zp.len() / 8, s);
}

/// Nibble `s` of a sequence of words.
pub open spec fn nibble_of(words: Seq<i32>, s: int) -> u8 {
    repack::nibble(words[s / 8], s % 8)
}

} // verus!
