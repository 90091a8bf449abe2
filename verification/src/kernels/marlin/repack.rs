//! Weight layouts of the marlin kernels, made from row major 4 bit weights.
//!
//! Source: `q` holds one value in `0..16` per byte, row major `(out, k)`; packed
//! words hold eight of them, the lowest nibble first. Target: `(k / 16, n * 2)`
//! words whose nibbles are gathered through the tile permutation of the kernel.

use rayon::iter::{IntoParallelIterator, ParallelIterator};
use vstd::arithmetic::div_mod;
use vstd::prelude::*;

verus! {

/// Runs `f` on every index below `n` in parallel and collects the results by
/// index: rayon's `into_par_iter` on a range, `map` and `collect`. An indexed
/// parallel iterator collects in the order of its indices, so element `i` of
/// the result is what `f` returned for `i`.
#[verifier::external_body]
pub(crate) fn par_map<T: Send, F: Fn(usize) -> T + Sync + Send>(n: usize, f: F) -> (r: Vec<T>)
    requires
        forall|i: usize| i < n ==> call_requires(f, (i,)),
    ensures
        r@.len() == n,
        forall|i: int| 0 <= i < n ==> call_ensures(f, (i as usize,), #[trigger] r@[i]),
{
    (0..n).into_par_iter().map(f).collect()
}

/// Nibble `j` of a word, counted from the lowest.
pub open spec fn nibble(word: i32, j: int) -> u8 {
    ((word as u32 >> (4 * j) as u32) & 0xF) as u8
}

/// What `unpack_nibbles` puts at row `r`, column `c`.
pub open spec fn unpacked_at(packed: Seq<i32>, k: int, r: int, c: int) -> u8 {
    if c < (k / 8) * 8 {
        nibble(packed[r * (k / 8) + c / 8], c % 8)
    } else {
        0
    }
}

pub proof fn lemma_row_col(i: int, rows: int, cols: int)
    by (nonlinear_arith)
    requires
        cols > 0,
        rows >= 0,
        0 <= i < rows * cols,
    ensures
        0 <= i / cols < rows,
        0 <= i % cols < cols,
        (i / cols) * cols + i % cols == i,
{
}

pub proof fn lemma_cell(r: int, c: int, rows: int, cols: int)
    by (nonlinear_arith)
    requires
        0 <= r < rows,
        0 <= c < cols,
    ensures
        0 <= r * cols <= r * cols + c < rows * cols,
{
}

fn unpack_one(packed: &[i32], k: usize, i: usize, out: usize) -> (b: u8)
    requires
        k > 0,
        packed@.len() == out * (k / 8),
        i < out * k,
    ensures
        b == unpacked_at(packed@, k as int, i as int / k as int, i as int % k as int),
{
    let kpr: usize = k / 8;
    let r: usize = i / k;
    let c: usize = i % k;
    proof {
        lemma_row_col(i as int, out as int, k as int);
    }
    if c < kpr * 8 {
        let ci: usize = c / 8;
        let nib: u32 = (c % 8) as u32;
        let total: usize = packed.len();
        proof {
            assert(total == out * kpr);
            lemma_cell(r as int, ci as int, out as int, kpr as int);
        }
        let v: u32 = packed[r * kpr + ci] as u32;
        ((v >> (4 * nib)) & 0xF) as u8
    } else {
        0
    }
}

/// Packed words `(out, k / 8)` to one byte per value, row major `(out, k)`. The
/// columns past the last whole word of a row are zero.
pub fn unpack_nibbles(packed: &[i32], out: usize, k: usize) -> (q: Vec<u8>)
    requires
        k > 0,
        packed@.len() == out * (k / 8),
        out * k <= usize::MAX,
    ensures
        q@.len() == out * k,
        forall|r: int, c: int|
            0 <= r < out && 0 <= c < k ==> #[trigger] q@[r * k + c] == unpacked_at(
                packed@,
                k as int,
                r,
                c,
            ),
{
    let f = |i: usize| -> (b: u8)
        requires
            i < out * k,
        ensures
            b == unpacked_at(packed@, k as int, i as int / k as int, i as int % k as int),
        { unpack_one(packed, k, i, out) };
    let q: Vec<u8> = par_map(out * k, f);
    proof {
        assert forall|r: int, c: int| 0 <= r < out && 0 <= c < k implies #[trigger] q@[r * k + c]
            == unpacked_at(packed@, k as int, r, c) by {
            lemma_cell(r, c, out as int, k as int);
            div_mod::lemma_fundamental_div_mod_converse(r * k + c, k as int, r, c);
            let b = q@[r * k + c];
            assert(call_ensures(f, ((r * k + c) as usize,), b));
        }
    }
    q
}

/// Order in which the kernel reads the eight nibbles of a word.
pub open spec fn interleave_at(t: int) -> int {
    if t < 4 {
        2 * t
    } else {
        2 * t - 7
    }
}

/// Entry `d` of the weight permutation, for `d` in `0..1024`.
#[verifier::opaque]
pub open spec fn perm_at(d: int) -> int {
    let i = d / 32;
    let j = (d / 8) % 4;
    let x = interleave_at(d % 8);
    16 * (2 * (i % 4) + x % 2 + 8 * ((x % 4) / 2)) + i / 4 + 8 * (x / 4) + 256 * j
}

/// The place of value `v` in the weight permutation.
#[verifier::opaque]
pub open spec fn perm_inverse_at(v: int) -> int {
    let j = v / 256;
    let row = (v % 256) / 16;
    let col = v % 8;
    let block = (v % 16) / 8;
    let x = 4 * block + 2 * (row / 8) + row % 2;
    let t = if x % 2 == 0 {
        x / 2
    } else {
        (x + 7) / 2
    };
    32 * (4 * col + (row % 8) / 2) + 8 * j + t
}

pub proof fn lemma_tile_digits(j: int, b: int, m: int, a: int, c: int, l: int)
    requires
        0 <= j < 4,
        0 <= b < 2,
        0 <= m < 4,
        0 <= a < 2,
        0 <= c < 2,
        0 <= l < 8,
    ensures
        ({
            let v = 256 * j + 16 * (8 * b + 2 * m + a) + 8 * c + l;
            let row = 8 * b + 2 * m + a;
            &&& 0 <= v < 1024
            &&& v / 256 == j
            &&& (v % 256) / 16 == row
            &&& v % 8 == l
            &&& (v % 16) / 8 == c
            &&& row / 8 == b
            &&& row % 2 == a
            &&& (row % 8) / 2 == m
        }),
{
}

proof fn lemma_thread_digits(l: int, m: int, j: int, t: int)
    requires
        0 <= l < 8,
        0 <= m < 4,
        0 <= j < 4,
        0 <= t < 8,
    ensures
        ({
            let d = 32 * (4 * l + m) + 8 * j + t;
            &&& 0 <= d < 1024
            &&& d / 32 == 4 * l + m
            &&& (d / 8) % 4 == j
            &&& d % 8 == t
            &&& (d / 32) % 4 == m
            &&& (d / 32) / 4 == l
        }),
{
}

proof fn lemma_interleave_digits(t: int)
    requires
        0 <= t < 8,
    ensures
        ({
            let x = interleave_at(t);
            &&& 0 <= x < 8
            &&& x == 4 * (x / 4) + 2 * ((x % 4) / 2) + x % 2
            &&& t == if x % 2 == 0 {
                x / 2
            } else {
                (x + 7) / 2
            }
        }),
{
}

proof fn lemma_perm_then_inverse(d: int)
    requires
        0 <= d < 1024,
    ensures
        0 <= perm_at(d) < 1024,
        perm_inverse_at(perm_at(d)) == d,
{
    reveal(perm_at);
    reveal(perm_inverse_at);
    let t = d % 8;
    let x = interleave_at(t);
    let i = d / 32;
    let j = (d / 8) % 4;
    let b = (x % 4) / 2;
    let m = i % 4;
    let a = x % 2;
    let c = x / 4;
    let l = i / 4;
    lemma_interleave_digits(t);
    assert(i == 4 * l + m && 0 <= l < 8);
    assert(d == 32 * i + 8 * j + t);
    lemma_tile_digits(j, b, m, a, c, l);
    let v = 256 * j + 16 * (8 * b + 2 * m + a) + 8 * c + l;
    assert(perm_at(d) == v);
    let row = 8 * b + 2 * m + a;
    assert(4 * c + 2 * (row / 8) + row % 2 == x);
    assert(perm_inverse_at(v) == 32 * (4 * l + m) + 8 * j + t);
}

proof fn lemma_inverse_then_perm(v: int)
    requires
        0 <= v < 1024,
    ensures
        0 <= perm_inverse_at(v) < 1024,
        perm_at(perm_inverse_at(v)) == v,
{
    reveal(perm_at);
    reveal(perm_inverse_at);
    let j = v / 256;
    let row = (v % 256) / 16;
    let l = v % 8;
    let c = (v % 16) / 8;
    let b = row / 8;
    let a = row % 2;
    let m = (row % 8) / 2;
    assert(row == 8 * b + 2 * m + a);
    assert(v == 256 * j + 16 * row + 8 * c + l);
    let x = 4 * c + 2 * b + a;
    let t = if x % 2 == 0 {
        x / 2
    } else {
        (x + 7) / 2
    };
    assert(x % 2 == a && x / 4 == c && (x % 4) / 2 == b);
    assert(0 <= t < 8 && interleave_at(t) == x);
    lemma_thread_digits(l, m, j, t);
}

/// The weight permutation maps `0..1024` onto itself, one to one.
pub proof fn law_perm_is_bijective(d: int)
    requires
        0 <= d < 1024,
    ensures
        0 <= perm_at(d) < 1024,
        perm_inverse_at(perm_at(d)) == d,
        0 <= perm_inverse_at(d) < 1024,
        perm_at(perm_inverse_at(d)) == d,
{
    lemma_perm_then_inverse(d);
    lemma_inverse_then_perm(d);
}

/// The weight permutation, 1024 entries.
pub fn marlin_perm() -> (perm: Vec<usize>)
    ensures
        perm@.len() == 1024,
        forall|d: int| 0 <= d < 1024 ==> #[trigger] perm@[d] == perm_at(d),
{
    let interleave: [usize; 8] = [0, 2, 4, 6, 1, 3, 5, 7];
    let mut perm: Vec<usize> = Vec::with_capacity(1024);
    let mut d: usize = 0;
    while d < 1024
        invariant
            d <= 1024,
            perm@.len() == d,
            forall|t: int| 0 <= t < 8 ==> #[trigger] interleave@[t] == interleave_at(t),
            forall|e: int| 0 <= e < d ==> #[trigger] perm@[e] == perm_at(e),
        decreases 1024 - d,
    {
        let i: usize = d / 32;
        let j: usize = (d / 8) % 4;
        let x: usize = interleave[d % 8];
        proof {
            reveal(perm_at);
            assert(x == interleave_at(d as int % 8));
        }
        let row: usize = 2 * (i % 4) + x % 2 + 8 * ((x % 4) / 2);
        perm.push(16 * row + i / 4 + 8 * (x / 4) + 256 * j);
        d += 1;
    }
    perm
}

/// Entry `d` of the scale permutation, for `d` in `0..64`.
pub open spec fn scale_perm_at(d: int) -> int {
    d / 8 + 8 * (d % 8)
}

/// Entry `d` of the single scale permutation, for `d` in `0..32`.
pub open spec fn scale_perm_single_at(d: int) -> int {
    2 * (d / 8) + 8 * ((d % 8) / 2) + d % 2
}

/// The scale permutation is its own inverse.
pub proof fn law_scale_perm_is_involution(d: int)
    requires
        0 <= d < 64,
    ensures
        0 <= scale_perm_at(d) < 64,
        scale_perm_at(scale_perm_at(d)) == d,
{
}

/// The single scale permutation maps `0..32` onto itself, one to one.
pub proof fn law_scale_perm_single_is_bijective(d: int)
    requires
        0 <= d < 32,
    ensures
        0 <= scale_perm_single_at(d) < 32,
        scale_perm_single_at(scale_perm_single_at(d)) == d,
{
}

/// The scale permutation of grouped scales, 64 entries.
pub fn marlin_scale_perm() -> (sp: Vec<usize>)
    ensures
        sp@.len() == 64,
        forall|d: int| 0 <= d < 64 ==> #[trigger] sp@[d] == scale_perm_at(d),
{
    let mut sp: Vec<usize> = Vec::with_capacity(64);
    let mut d: usize = 0;
    while d < 64
        invariant
            d <= 64,
            sp@.len() == d,
            forall|e: int| 0 <= e < d ==> #[trigger] sp@[e] == scale_perm_at(e),
        decreases 64 - d,
    {
        sp.push(d / 8 + 8 * (d % 8));
        d += 1;
    }
    sp
}

/// The scale permutation of 8 bit activations, 32 entries.
pub fn marlin_scale_perm_single() -> (sp: Vec<usize>)
    ensures
        sp@.len() == 32,
        forall|d: int| 0 <= d < 32 ==> #[trigger] sp@[d] == scale_perm_single_at(d),
{
    let mut sp: Vec<usize> = Vec::with_capacity(32);
    let mut d: usize = 0;
    while d < 32
        invariant
            d <= 32,
            sp@.len() == d,
            forall|e: int| 0 <= e < d ==> #[trigger] sp@[e] == scale_perm_single_at(e),
        decreases 32 - d,
    {
        sp.push(2 * (d / 8) + 8 * ((d % 8) / 2) + d % 2);
        d += 1;
    }
    sp
}

/// The values of a word set side by side, four bits each, the first one lowest.
/// Values above 15 spill into the next nibble.
pub open spec fn packed_bits(vals: Seq<u8>) -> u32
    decreases vals.len(),
{
    if vals.len() == 0 {
        0
    } else {
        packed_bits(vals.drop_last()) | ((vals.last() as u32) << (4 * (vals.len() - 1)) as u32)
    }
}

proof fn lemma_nibbles_apart(a: u8, b: u8, c: u8, d: u8, e: u8, f: u8, g: u8, h: u8)
    by (bit_vector)
    requires
        a < 16,
        b < 16,
        c < 16,
        d < 16,
        e < 16,
        f < 16,
        g < 16,
        h < 16,
    ensures
        ({
            let w = ((((((((0u32 | ((a as u32) << 0u32)) | ((b as u32) << 4u32)) | ((c as u32)
                << 8u32)) | ((d as u32) << 12u32)) | ((e as u32) << 16u32)) | ((f as u32) << 20u32))
                | ((g as u32) << 24u32)) | ((h as u32) << 28u32)) as i32 as u32;
            &&& ((w >> 0u32) & 0xF) as u8 == a
            &&& ((w >> 4u32) & 0xF) as u8 == b
            &&& ((w >> 8u32) & 0xF) as u8 == c
            &&& ((w >> 12u32) & 0xF) as u8 == d
            &&& ((w >> 16u32) & 0xF) as u8 == e
            &&& ((w >> 20u32) & 0xF) as u8 == f
            &&& ((w >> 24u32) & 0xF) as u8 == g
            &&& ((w >> 28u32) & 0xF) as u8 == h
        }),
{
}

/// A word of eight values below 16 gives each of them back.
pub proof fn law_packed_word_keeps_values(vals: Seq<u8>, j: int)
    requires
        vals.len() == 8,
        forall|x: int| 0 <= x < 8 ==> #[trigger] vals[x] < 16,
        0 <= j < 8,
    ensures
        nibble(packed_bits(vals) as i32, j) == vals[j],
{
    reveal_with_fuel(packed_bits, 9);
    let v7 = vals.drop_last();
    let v6 = v7.drop_last();
    let v5 = v6.drop_last();
    let v4 = v5.drop_last();
    let v3 = v4.drop_last();
    let v2 = v3.drop_last();
    let v1 = v2.drop_last();
    assert(v1.drop_last().len() == 0);
    lemma_nibbles_apart(
        vals[0],
        vals[1],
        vals[2],
        vals[3],
        vals[4],
        vals[5],
        vals[6],
        vals[7],
    );
}

/// Where the kernel layout of a `(k, n)` weight takes nibble `s` from: the index
/// into the row major `(n, k)` values.
#[verifier::opaque]
pub open spec fn marlin_source(k: int, n: int, s: int) -> int {
    let r = (s / 1024) * 1024 + perm_at(s % 1024);
    let rem = r % (16 * n);
    let i = (r / (16 * n)) * 16 + (rem % 256) / 16;
    let o = (rem / 256) * 16 + rem % 16;
    o * k + i
}

/// The place of value `idx` of the row major `(n, k)` values in the kernel layout.
#[verifier::opaque]
pub open spec fn marlin_place(k: int, n: int, idx: int) -> int {
    let o = idx / k;
    let i = idx % k;
    let r = (i / 16) * (16 * n) + (o / 16) * 256 + (i % 16) * 16 + o % 16;
    (r / 1024) * 1024 + perm_inverse_at(r % 1024)
}

/// The shapes that the 16 bit activation layout takes.
pub open spec fn marlin_shape(k: int, n: int) -> bool {
    &&& 0 <= k && k % 128 == 0
    &&& 0 <= n && n % 256 == 0
}

/// The eight values of word `w` in the layout given by `source`.
pub open spec fn gathered(q: Seq<u8>, source: spec_fn(int) -> int, w: int) -> Seq<u8> {
    Seq::new(8, |j: int| q[source(8 * w + j)])
}

/// The words of the layout given by `source`.
pub open spec fn layout_words(q: Seq<u8>, source: spec_fn(int) -> int, words: nat) -> Seq<i32> {
    Seq::new(words, |w: int| packed_bits(gathered(q, source, w)) as i32)
}

/// Nibble `s` of a layout is the value that it was taken from.
pub proof fn lemma_layout_keeps_values(
    q: Seq<u8>,
    source: spec_fn(int) -> int,
    words: nat,
    s: int,
)
    requires
        forall|x: int| 0 <= x < q.len() ==> #[trigger] q[x] < 16,
        forall|x: int| 0 <= x < 8 * words ==> 0 <= #[trigger] source(x) < q.len(),
        0 <= s < 8 * words,
    ensures
        nibble(layout_words(q, source, words)[s / 8], s % 8) == q[source(s)],
{
    let w = s / 8;
    let vals = gathered(q, source, w);
    assert forall|x: int| 0 <= x < 8 implies #[trigger] vals[x] < 16 by {
        assert(vals[x] == q[source(8 * w + x)]);
    }
    law_packed_word_keeps_values(vals, s % 8);
    assert(8 * w + s % 8 == s);
}

/// The words of the 16 bit activation layout.
pub open spec fn marlin_b_words(q: Seq<u8>, k: int, n: int) -> Seq<i32> {
    layout_words(q, |s: int| marlin_source(k, n, s), (k * n / 8) as nat)
}

proof fn lemma_chunked(s: int, total: int)
    requires
        0 <= s < total,
        total % 1024 == 0,
    ensures
        0 <= (s / 1024) * 1024,
        (s / 1024) * 1024 + 1024 <= total,
{
}

proof fn lemma_k_tiles(k: int, n: int, r: int)
    by (nonlinear_arith)
    requires
        k >= 0,
        k % 16 == 0,
        n > 0,
        0 <= r < k * n,
    ensures
        0 <= r / (16 * n) < k / 16,
        0 <= r % (16 * n) < 16 * n,
{
    assert(k == 16 * (k / 16));
    assert(k * n == (k / 16) * (16 * n));
}

proof fn lemma_tile_digit(rem: int)
    requires
        0 <= rem,
    ensures
        rem == (rem / 256) * 256 + ((rem % 256) / 16) * 16 + rem % 16,
        0 <= (rem % 256) / 16 < 16,
        0 <= rem % 16 < 16,
        0 <= rem / 256,
{
    let q = rem / 256;
    let r = rem % 256;
    let (a, b) = (r / 16, r % 16);
    assert(rem == q * 256 + r && 0 <= r < 256);
    assert(r == a * 16 + b && 0 <= b < 16);
    vstd::arithmetic::div_mod::lemma_fundamental_div_mod_converse(rem, 16, q * 16 + a, b);
}

proof fn lemma_sixteens(a: int, b: int)
    requires
        0 <= b < 16,
    ensures
        (a * 16 + b) / 16 == a,
        (a * 16 + b) % 16 == b,
{
}

proof fn lemma_tile_cell(kb: int, rem: int, k: int, n: int)
    requires
        0 <= kb < k / 16,
        k % 16 == 0,
        n % 16 == 0,
        0 <= rem < 16 * n,
    ensures
        ({
            let t1 = (rem % 256) / 16;
            let t2 = rem % 16;
            let i = kb * 16 + t1;
            let o = (rem / 256) * 16 + t2;
            &&& 0 <= i < k
            &&& 0 <= o < n
            &&& i / 16 == kb
            &&& i % 16 == t1
            &&& o / 16 == rem / 256
            &&& o % 16 == t2
            &&& rem == (rem / 256) * 256 + t1 * 16 + t2
        }),
{
    let t1 = (rem % 256) / 16;
    let t2 = rem % 16;
    let nb = rem / 256;
    lemma_tile_digit(rem);
    lemma_sixteens(kb, t1);
    lemma_sixteens(nb, t2);
    let m = n / 16;
    let l = k / 16;
    assert(n == 16 * m && k == 16 * l);
    assert(nb * 256 < 256 * m);
    assert(nb <= m - 1);
    assert(kb <= l - 1);
}

proof fn lemma_cell_tile(i: int, o: int, k: int, n: int)
    requires
        0 <= i < k,
        0 <= o < n,
        k % 16 == 0,
        n % 16 == 0,
    ensures
        ({
            let rem = (o / 16) * 256 + (i % 16) * 16 + o % 16;
            &&& 0 <= rem < 16 * n
            &&& 0 <= i / 16 < k / 16
            &&& rem / 256 == o / 16
            &&& (rem % 256) / 16 == i % 16
            &&& rem % 16 == o % 16
            &&& (i / 16) * 16 + i % 16 == i
            &&& (o / 16) * 16 + o % 16 == o
        }),
{
}

proof fn lemma_marlin_total(k: int, n: int)
    by (nonlinear_arith)
    requires
        marlin_shape(k, n),
    ensures
        (k * n) % 1024 == 0,
        k * n >= 0,
        k > 0 ==> k * n >= 16 * n,
        k * n > 0 ==> k > 0 && n > 0,
{
    let a = k / 128;
    let b = n / 256;
    assert(k == 128 * a && n == 256 * b);
    assert(k * n == 1024 * (32 * (a * b)));
    assert(a >= 0 && b >= 0);
    assert(k * n == (128 * a) * (256 * b));
}

/// Every nibble of the layout comes from a value of the source.
pub proof fn lemma_marlin_source_in_range(k: int, n: int, s: int)
    requires
        marlin_shape(k, n),
        0 <= s < k * n,
    ensures
        0 <= marlin_source(k, n, s) < k * n,
{
    reveal(marlin_source);
    lemma_marlin_total(k, n);
    lemma_chunked(s, k * n);
    law_perm_is_bijective(s % 1024);
    let r = (s / 1024) * 1024 + perm_at(s % 1024);
    lemma_k_tiles(k, n, r);
    let rem = r % (16 * n);
    let i = (r / (16 * n)) * 16 + (rem % 256) / 16;
    let o = (rem / 256) * 16 + rem % 16;
    lemma_tile_cell(r / (16 * n), rem, k, n);
    lemma_cell(o, i, n, k);
    assert(n * k == k * n) by (nonlinear_arith);
}

/// The layout is a permutation of the values: the place of a nibble's source is
/// the nibble itself, and the source of a value's place is the value.
pub proof fn law_marlin_layout_is_a_permutation(k: int, n: int, s: int)
    requires
        marlin_shape(k, n),
        0 <= s < k * n,
    ensures
        0 <= marlin_source(k, n, s) < k * n,
        marlin_place(k, n, marlin_source(k, n, s)) == s,
        0 <= marlin_place(k, n, s) < k * n,
        marlin_source(k, n, marlin_place(k, n, s)) == s,
{
    lemma_marlin_source_in_range(k, n, s);
    lemma_place_of_source(k, n, s);
    lemma_source_of_place(k, n, s);
}

proof fn lemma_place_of_source(k: int, n: int, s: int)
    requires
        marlin_shape(k, n),
        0 <= s < k * n,
    ensures
        marlin_place(k, n, marlin_source(k, n, s)) == s,
{
    reveal(marlin_source);
    reveal(marlin_place);
    lemma_marlin_total(k, n);
    lemma_chunked(s, k * n);
    law_perm_is_bijective(s % 1024);
    let p = perm_at(s % 1024);
    let r = (s / 1024) * 1024 + p;
    lemma_k_tiles(k, n, r);
    let kb = r / (16 * n);
    let rem = r % (16 * n);
    let i = kb * 16 + (rem % 256) / 16;
    let o = (rem / 256) * 16 + rem % 16;
    lemma_tile_cell(kb, rem, k, n);
    div_mod::lemma_fundamental_div_mod_converse(o * k + i, k, o, i);
    div_mod::lemma_fundamental_div_mod(r, 16 * n);
    assert((16 * n) * kb == kb * (16 * n)) by (nonlinear_arith);
    lemma_block(s / 1024, p);
}

proof fn lemma_block(c: int, p: int)
    requires
        0 <= p < 1024,
    ensures
        (c * 1024 + p) / 1024 == c,
        (c * 1024 + p) % 1024 == p,
{
}

proof fn lemma_source_of_place(k: int, n: int, idx: int)
    requires
        marlin_shape(k, n),
        0 <= idx < k * n,
    ensures
        0 <= marlin_place(k, n, idx) < k * n,
        marlin_source(k, n, marlin_place(k, n, idx)) == idx,
{
    reveal(marlin_source);
    reveal(marlin_place);
    lemma_marlin_total(k, n);
    assert(n * k == k * n) by (nonlinear_arith);
    lemma_row_col(idx, n, k);
    let o = idx / k;
    let i = idx % k;
    let kb = i / 16;
    let rem = (o / 16) * 256 + (i % 16) * 16 + o % 16;
    let r = kb * (16 * n) + rem;
    lemma_cell_tile(i, o, k, n);
    lemma_cell(kb, rem, k / 16, 16 * n);
    assert((k / 16) * (16 * n) == k * n) by (nonlinear_arith)
        requires
            k % 16 == 0,
    ;
    div_mod::lemma_fundamental_div_mod_converse(r, 16 * n, kb, rem);
    law_perm_is_bijective(r % 1024);
    lemma_chunked(r, k * n);
    lemma_block(r / 1024, perm_inverse_at(r % 1024));
}

fn marlin_word(q: &[u8], perm: &Vec<usize>, k: usize, n: usize, w: usize) -> (word: i32)
    requires
        marlin_shape(k as int, n as int),
        q@.len() == k * n,
        perm@.len() == 1024,
        forall|d: int| 0 <= d < 1024 ==> #[trigger] perm@[d] == perm_at(d),
        w < k * n / 8,
    ensures
        word == packed_bits(
            gathered(q@, |s: int| marlin_source(k as int, n as int, s), w as int),
        ) as i32,
{
    let total: usize = q.len();
    proof {
        lemma_marlin_total(k as int, n as int);
    }
    let n16: usize = n * 16;
    let base: usize = w * 8;
    let chunk: usize = base / 1024;
    let first: usize = base % 1024;
    let ghost source = |s: int| marlin_source(k as int, n as int, s);
    let ghost vals = gathered(q@, source, w as int);
    let mut v: u32 = 0;
    let mut j: usize = 0;
    assert(vals.take(0) =~= Seq::empty());
    while j < 8
        invariant
            j <= 8,
            base == w * 8,
            chunk == base / 1024,
            first == base % 1024,
            n16 == n * 16,
            w < k * n / 8,
            marlin_shape(k as int, n as int),
            total == k * n,
            q@.len() == k * n,
            perm@.len() == 1024,
            forall|d: int| 0 <= d < 1024 ==> #[trigger] perm@[d] == perm_at(d),
            source == (|s: int| marlin_source(k as int, n as int, s)),
            vals == gathered(q@, source, w as int),
            v == packed_bits(vals.take(j as int)),
        decreases 8 - j,
    {
        let ghost s = 8 * w + j;
        proof {
            lemma_marlin_total(k as int, n as int);
            lemma_chunked(s, k * n);
            law_perm_is_bijective(s % 1024);
            assert(s / 1024 == chunk && s % 1024 == first + j);
            assert(perm@[first + j] == perm_at(s % 1024));
            lemma_k_tiles(k as int, n as int, chunk * 1024 + perm_at(s % 1024));
        }
        let src: usize = perm[first + j];
        let r: usize = chunk * 1024 + src;
        let kb: usize = r / n16;
        let rem: usize = r % n16;
        let i: usize = kb * 16 + (rem % 256) / 16;
        let o: usize = (rem / 256) * 16 + rem % 16;
        proof {
            lemma_tile_cell(kb as int, rem as int, k as int, n as int);
            lemma_cell(o as int, i as int, n as int, k as int);
            assert(n * k == k * n) by (nonlinear_arith);
            assert(o * k + i == marlin_source(k as int, n as int, s)) by {
                reveal(marlin_source);
            }
            assert(vals.take(j as int + 1).drop_last() =~= vals.take(j as int));
            assert(vals[j as int] == q@[source(s)]);
        }
        v = v | ((q[o * k + i] as u32) << (4 * j as u32));
        j += 1;
    }
    assert(vals.take(8) =~= vals);
    v as i32
}

/// Row major `(n, k)` values to the words of the 16 bit activation layout.
pub fn pack_marlin_b(q: &[u8], k: usize, n: usize) -> (b: Vec<i32>)
    requires
        marlin_shape(k as int, n as int),
        q@.len() == k * n,
    ensures
        b@ == marlin_b_words(q@, k as int, n as int),
{
    let perm: Vec<usize> = marlin_perm();
    let words: usize = q.len() / 8;
    let f = |w: usize| -> (word: i32)
        requires
            w < k * n / 8,
        ensures
            word == packed_bits(
                gathered(q@, |s: int| marlin_source(k as int, n as int, s), w as int),
            ) as i32,
        { marlin_word(q, &perm, k, n, w) };
    let b: Vec<i32> = par_map(words, f);
    proof {
        assert forall|w: int| 0 <= w < b@.len() implies #[trigger] b@[w] == marlin_b_words(
            q@,
            k as int,
            n as int,
        )[w] by {
            assert(call_ensures(f, (w as usize,), b@[w]));
        }
        assert(b@ =~= marlin_b_words(q@, k as int, n as int));
    }
    b
}

/// Packing loses nothing: nibble `marlin_place(idx)` of the packed words is value
/// `idx`, for values below 16.
pub proof fn law_pack_marlin_b_keeps_values(q: Seq<u8>, k: int, n: int, idx: int)
    requires
        marlin_shape(k, n),
        q.len() == k * n,
        forall|x: int| 0 <= x < q.len() ==> #[trigger] q[x] < 16,
        0 <= idx < k * n,
    ensures
        ({
            let s = marlin_place(k, n, idx);
            nibble(marlin_b_words(q, k, n)[s / 8], s % 8) == q[idx]
        }),
{
    let s = marlin_place(k, n, idx);
    let source = |x: int| marlin_source(k, n, x);
    law_marlin_layout_is_a_permutation(k, n, idx);
    lemma_marlin_total(k, n);
    assert forall|x: int| 0 <= x < 8 * (k * n / 8) implies 0 <= #[trigger] source(x)
        < q.len() by {
        lemma_marlin_source_in_range(k, n, x);
    }
    lemma_layout_keeps_values(q, source, (k * n / 8) as nat, s);
}

/// Where nibble `t` of a row of tiles is taken from, within the row.
pub open spec fn row_place(t: int) -> int {
    (t / 1024) * 1024 + perm_at(t % 1024)
}

/// The source of nibble `t` of row `kb` of tiles.
pub open spec fn row_source(k: int, kb: int, t: int) -> int {
    let rem = row_place(t);
    ((rem / 256) * 16 + rem % 16) * k + kb * 16 + (rem % 256) / 16
}

proof fn lemma_row_source(k: int, n: int, kb: int, t: int)
    requires
        k >= 0,
        k % 16 == 0,
        n % 64 == 0,
        0 <= kb < k / 16,
        0 <= t < 16 * n,
    ensures
        marlin_source(k, n, kb * (16 * n) + t) == row_source(k, kb, t),
        0 <= row_source(k, kb, t) < n * k,
{
    reveal(marlin_source);
    let m = n / 64;
    let s = kb * (16 * n) + t;
    assert(16 * n == 1024 * m);
    assert(kb * (16 * n) == (kb * m) * 1024) by (nonlinear_arith)
        requires
            16 * n == 1024 * m,
    ;
    lemma_block_digits(kb * m, t);
    law_perm_is_bijective(t % 1024);
    let rem = row_place(t);
    assert(0 <= rem < 16 * n);
    let r = (s / 1024) * 1024 + perm_at(s % 1024);
    assert(r == kb * (16 * n) + rem);
    div_mod::lemma_fundamental_div_mod_converse(r, 16 * n, kb, rem);
    lemma_tile_cell(kb, rem, k, n);
    let i = kb * 16 + (rem % 256) / 16;
    let o = (rem / 256) * 16 + rem % 16;
    lemma_cell(o, i, n, k);
}

proof fn lemma_block_digits(c: int, t: int)
    requires
        t >= 0,
    ensures
        (c * 1024 + t) / 1024 == c + t / 1024,
        (c * 1024 + t) % 1024 == t % 1024,
{
}

proof fn lemma_row_source_shifts(k: int, na: int, kb: int, t: int)
    requires
        na >= 0,
        na % 64 == 0,
        t >= 0,
    ensures
        row_source(k, kb, 16 * na + t) == na * k + row_source(k, kb, t),
{
    let m = na / 64;
    lemma_block_digits(m, t);
    assert(16 * na + t == m * 1024 + t);
    let rem = row_place(t);
    assert(row_place(16 * na + t) == 16 * na + rem);
    assert((16 * na + rem) / 256 == na / 16 + rem / 256);
    assert((16 * na + rem) % 16 == rem % 16);
    assert((16 * na + rem) % 256 == rem % 256);
    let o = (rem / 256) * 16 + rem % 16;
    assert(((16 * na + rem) / 256) * 16 + (16 * na + rem) % 16 == na + o);
    assert((na + o) * k == na * k + o * k) by (nonlinear_arith);
}

/// Joining weights along the output before they are packed is the same as joining
/// the packed rows, as long as both have whole groups of 64 outputs: in each row of
/// tiles the words of the first weight stand before those of the second.
pub proof fn law_joined_weights_pack_apart(
    a: Seq<u8>,
    b: Seq<u8>,
    k: int,
    na: int,
    nb: int,
    kb: int,
    w: int,
)
    requires
        k >= 0,
        k % 16 == 0,
        na >= 0,
        na % 64 == 0,
        nb >= 0,
        nb % 64 == 0,
        a.len() == na * k,
        b.len() == nb * k,
        0 <= kb < k / 16,
        0 <= w < 2 * (na + nb),
    ensures
        marlin_b_words(a + b, k, na + nb)[kb * (2 * (na + nb)) + w] == if w < 2 * na {
            marlin_b_words(a, k, na)[kb * (2 * na) + w]
        } else {
            marlin_b_words(b, k, nb)[kb * (2 * nb) + (w - 2 * na)]
        },
{
    let n = na + nb;
    assert(n * k == na * k + nb * k) by (nonlinear_arith)
        requires
            n == na + nb,
    ;
    lemma_word_in_row(k, n, kb, w);
    let joined = gathered(a + b, |s: int| marlin_source(k, n, s), kb * (2 * n) + w);
    assert(8 * (kb * (2 * n) + w) == kb * (16 * n) + 8 * w) by (nonlinear_arith);
    if w < 2 * na {
        lemma_word_in_row(k, na, kb, w);
        let own = gathered(a, |s: int| marlin_source(k, na, s), kb * (2 * na) + w);
        assert(8 * (kb * (2 * na) + w) == kb * (16 * na) + 8 * w) by (nonlinear_arith);
        assert forall|j: int| 0 <= j < 8 implies #[trigger] joined[j] == own[j] by {
            lemma_row_source(k, n, kb, 8 * w + j);
            lemma_row_source(k, na, kb, 8 * w + j);
        }
        assert(joined =~= own);
    } else {
        let v = w - 2 * na;
        lemma_word_in_row(k, nb, kb, v);
        let own = gathered(b, |s: int| marlin_source(k, nb, s), kb * (2 * nb) + v);
        assert(8 * (kb * (2 * nb) + v) == kb * (16 * nb) + 8 * v) by (nonlinear_arith);
        assert forall|j: int| 0 <= j < 8 implies #[trigger] joined[j] == own[j] by {
            lemma_row_source(k, n, kb, 8 * w + j);
            lemma_row_source(k, nb, kb, 8 * v + j);
            lemma_row_source_shifts(k, na, kb, 8 * v + j);
        }
        assert(joined =~= own);
    }
}

proof fn lemma_word_in_row(k: int, n: int, kb: int, w: int)
    by (nonlinear_arith)
    requires
        k >= 0,
        k % 16 == 0,
        n >= 0,
        0 <= kb < k / 16,
        0 <= w < 2 * n,
    ensures
        0 <= kb * (2 * n) + w < k * n / 8,
{
    let l = k / 16;
    assert(k == 16 * l);
    assert(k * n == 8 * (l * (2 * n)));
    assert((kb + 1) * (2 * n) <= l * (2 * n));
    assert(kb * (2 * n) >= 0);
    assert((kb + 1) * (2 * n) == kb * (2 * n) + 2 * n);
    assert((8 * (l * (2 * n))) / 8 == l * (2 * n));
}

/// The shapes that the 8 bit activation layout takes.
pub open spec fn marlin_a8_shape(k: int, n: int) -> bool {
    &&& 0 <= k && k % 32 == 0
    &&& 0 < n && n % 64 == 0
}

/// Where the 8 bit activation layout takes nibble `s` from. Tiles are 32 by 32;
/// word `4 * th + warp` of a tile holds eight values of one output column.
#[verifier::opaque]
pub open spec fn marlin_a8_source(k: int, n: int, s: int) -> int {
    let r = s % 8;
    let word = (s / 8) % 128;
    let tile = (s / 8) / 128;
    let warp = word % 4;
    let th = word / 4;
    let i = (tile / (n / 32)) * 32 + (th % 4) * 4 + r / 2 + 16 * (r % 2);
    let o = (tile % (n / 32)) * 32 + (warp / 2) * 16 + th / 4 + (warp % 2) * 8;
    o * k + i
}

/// The place of value `idx` in the 8 bit activation layout.
#[verifier::opaque]
pub open spec fn marlin_a8_place(k: int, n: int, idx: int) -> int {
    let i = idx % k;
    let o = idx / k;
    let kl = i % 32;
    let nl = o % 32;
    let th = (nl % 8) * 4 + (kl % 16) / 4;
    let warp = (nl / 16) * 2 + (nl % 16) / 8;
    let w = ((i / 32) * (n / 32) + o / 32) * 128 + th * 4 + warp;
    8 * w + 2 * (kl % 4) + kl / 16
}

/// The words of the 8 bit activation layout.
pub open spec fn marlin_b_a8_words(q: Seq<u8>, k: int, n: int) -> Seq<i32> {
    layout_words(q, |s: int| marlin_a8_source(k, n, s), (k * n / 8) as nat)
}

proof fn lemma_a8_column(a: int, c: int, d: int)
    requires
        0 <= a < 8,
        0 <= c < 2,
        0 <= d < 2,
    ensures
        ({
            let nl = c * 16 + a + d * 8;
            &&& 0 <= nl < 32
            &&& nl % 8 == a
            &&& nl / 16 == c
            &&& (nl % 16) / 8 == d
        }),
{
}

proof fn lemma_a8_row(b: int, e: int, f: int)
    requires
        0 <= b < 4,
        0 <= e < 4,
        0 <= f < 2,
    ensures
        ({
            let kl = b * 4 + e + 16 * f;
            &&& 0 <= kl < 32
            &&& (kl % 16) / 4 == b
            &&& kl % 4 == e
            &&& kl / 16 == f
        }),
{
}

proof fn lemma_a8_word_digits(r: int, word: int)
    requires
        0 <= r < 8,
        0 <= word < 128,
    ensures
        ({
            let warp = word % 4;
            let th = word / 4;
            let kl = (th % 4) * 4 + r / 2 + 16 * (r % 2);
            let nl = (warp / 2) * 16 + th / 4 + (warp % 2) * 8;
            &&& 0 <= kl < 32
            &&& 0 <= nl < 32
            &&& ((nl % 8) * 4 + (kl % 16) / 4) * 4 + (nl / 16) * 2 + (nl % 16) / 8 == word
            &&& 2 * (kl % 4) + kl / 16 == r
        }),
{
    let warp = word % 4;
    let th = word / 4;
    lemma_a8_column(th / 4, warp / 2, warp % 2);
    lemma_a8_row(th % 4, r / 2, r % 2);
}

proof fn lemma_a8_cell_digits(kl: int, nl: int)
    requires
        0 <= kl < 32,
        0 <= nl < 32,
    ensures
        ({
            let th = (nl % 8) * 4 + (kl % 16) / 4;
            let warp = (nl / 16) * 2 + (nl % 16) / 8;
            let word = th * 4 + warp;
            let r = 2 * (kl % 4) + kl / 16;
            &&& 0 <= word < 128
            &&& 0 <= r < 8
            &&& word % 4 == warp
            &&& word / 4 == th
            &&& (th % 4) * 4 + r / 2 + 16 * (r % 2) == kl
            &&& (warp / 2) * 16 + th / 4 + (warp % 2) * 8 == nl
        }),
{
    let a = nl % 8;
    let c = nl / 16;
    let d = (nl % 16) / 8;
    let b = (kl % 16) / 4;
    let e = kl % 4;
    let f = kl / 16;
    assert(nl == 16 * c + 8 * d + a);
    assert(kl == 16 * f + 4 * b + e);
    let th = a * 4 + b;
    let warp = c * 2 + d;
    let word = th * 4 + warp;
    let r = 2 * e + f;
    assert(word % 4 == warp && word / 4 == th);
    assert(th % 4 == b && th / 4 == a && warp / 2 == c && warp % 2 == d);
    assert(r / 2 == e && r % 2 == f);
}

proof fn lemma_a8_total(k: int, n: int)
    by (nonlinear_arith)
    requires
        marlin_a8_shape(k, n),
    ensures
        k * n == (k / 32) * (n / 32) * 1024,
        k * n >= 0,
        k * n > 0 ==> k > 0,
        n / 32 >= 2,
        n == 32 * (n / 32),
        k == 32 * (k / 32),
{
    let a = k / 32;
    let b = n / 32;
    assert(k == 32 * a && n == 32 * b);
    assert((32 * a) * (32 * b) == a * b * 1024);
}

pub proof fn lemma_word_digits(w: int, r: int)
    requires
        0 <= r < 8,
    ensures
        (8 * w + r) / 8 == w,
        (8 * w + r) % 8 == r,
{
}

proof fn lemma_tile_word(tile: int, word: int)
    requires
        0 <= word < 128,
    ensures
        (tile * 128 + word) / 128 == tile,
        (tile * 128 + word) % 128 == word,
{
}

proof fn lemma_tile32(t: int, l: int)
    requires
        0 <= l < 32,
    ensures
        (t * 32 + l) / 32 == t,
        (t * 32 + l) % 32 == l,
{
}

/// The 8 bit activation layout is a permutation of the values.
pub proof fn law_marlin_a8_layout_is_a_permutation(k: int, n: int, s: int)
    requires
        marlin_a8_shape(k, n),
        0 <= s < k * n,
    ensures
        0 <= marlin_a8_source(k, n, s) < k * n,
        marlin_a8_place(k, n, marlin_a8_source(k, n, s)) == s,
        0 <= marlin_a8_place(k, n, s) < k * n,
        marlin_a8_source(k, n, marlin_a8_place(k, n, s)) == s,
{
    lemma_a8_place_of_source(k, n, s);
    lemma_a8_source_of_place(k, n, s);
}

proof fn lemma_a8_place_of_source(k: int, n: int, s: int)
    requires
        marlin_a8_shape(k, n),
        0 <= s < k * n,
    ensures
        0 <= marlin_a8_source(k, n, s) < k * n,
        marlin_a8_place(k, n, marlin_a8_source(k, n, s)) == s,
{
    reveal(marlin_a8_source);
    reveal(marlin_a8_place);
    lemma_a8_total(k, n);
    let r = s % 8;
    let w = s / 8;
    let word = w % 128;
    let tile = w / 128;
    let nts = n / 32;
    assert(s == 8 * w + r && w == 128 * tile + word);
    assert(0 <= tile < (k / 32) * nts);
    lemma_row_col(tile, k / 32, nts);
    let kt = tile / nts;
    let nt = tile % nts;
    let warp = word % 4;
    let th = word / 4;
    lemma_a8_word_digits(r, word);
    let kl = (th % 4) * 4 + r / 2 + 16 * (r % 2);
    let nl = (warp / 2) * 16 + th / 4 + (warp % 2) * 8;
    let i = kt * 32 + kl;
    let o = nt * 32 + nl;
    lemma_tile32(kt, kl);
    lemma_tile32(nt, nl);
    lemma_cell(o, i, n, k);
    assert(n * k == k * n) by (nonlinear_arith);
    assert(marlin_a8_source(k, n, s) == o * k + i);
    div_mod::lemma_fundamental_div_mod_converse(o * k + i, k, o, i);
}

proof fn lemma_a8_source_of_place(k: int, n: int, idx: int)
    requires
        marlin_a8_shape(k, n),
        0 <= idx < k * n,
    ensures
        0 <= marlin_a8_place(k, n, idx) < k * n,
        marlin_a8_source(k, n, marlin_a8_place(k, n, idx)) == idx,
{
    reveal(marlin_a8_source);
    reveal(marlin_a8_place);
    lemma_a8_total(k, n);
    assert(n * k == k * n) by (nonlinear_arith);
    lemma_row_col(idx, n, k);
    let i = idx % k;
    let o = idx / k;
    let kt = i / 32;
    let kl = i % 32;
    let nt = o / 32;
    let nl = o % 32;
    let nts = n / 32;
    assert(0 <= kt < k / 32 && 0 <= nt < nts);
    lemma_cell(kt, nt, k / 32, nts);
    lemma_a8_cell_digits(kl, nl);
    let tile = kt * nts + nt;
    div_mod::lemma_fundamental_div_mod_converse(tile, nts, kt, nt);
    let th = (nl % 8) * 4 + (kl % 16) / 4;
    let warp = (nl / 16) * 2 + (nl % 16) / 8;
    let word = th * 4 + warp;
    let r = 2 * (kl % 4) + kl / 16;
    let w = tile * 128 + word;
    lemma_tile_word(tile, word);
    lemma_word_digits(w, r);
    let s = 8 * w + r;
    assert(marlin_a8_place(k, n, idx) == s);
    assert(i == kt * 32 + kl && o == nt * 32 + nl);
}

fn marlin_a8_word(q: &[u8], k: usize, n: usize, w: usize) -> (bits: i32)
    requires
        marlin_a8_shape(k as int, n as int),
        q@.len() == k * n,
        w < k * n / 8,
    ensures
        bits == packed_bits(
            gathered(q@, |s: int| marlin_a8_source(k as int, n as int, s), w as int),
        ) as i32,
{
    let total: usize = q.len();
    proof {
        lemma_a8_total(k as int, n as int);
    }
    let nts: usize = n / 32;
    let word: usize = w % 128;
    let tile: usize = w / 128;
    let warp: usize = word % 4;
    let th: usize = word / 4;
    let kt: usize = tile / nts;
    let nt: usize = tile % nts;
    proof {
        assert(0 <= tile < (k as int / 32) * nts);
        lemma_row_col(tile as int, k as int / 32, nts as int);
        lemma_a8_word_digits(0, word as int);
    }
    let o: usize = nt * 32 + (warp / 2) * 16 + th / 4 + (warp % 2) * 8;
    let ghost source = |s: int| marlin_a8_source(k as int, n as int, s);
    let ghost vals = gathered(q@, source, w as int);
    let mut v: u32 = 0;
    let mut r: usize = 0;
    assert(vals.take(0) =~= Seq::empty());
    while r < 8
        invariant
            r <= 8,
            marlin_a8_shape(k as int, n as int),
            total == k * n,
            q@.len() == k * n,
            w < k * n / 8,
            nts == n / 32,
            word == w % 128,
            tile == w / 128,
            warp == word % 4,
            th == word / 4,
            kt == tile / nts,
            nt == tile % nts,
            0 <= kt < k / 32,
            o == nt * 32 + (warp / 2) * 16 + th / 4 + (warp % 2) * 8,
            o < n,
            source == (|s: int| marlin_a8_source(k as int, n as int, s)),
            vals == gathered(q@, source, w as int),
            v == packed_bits(vals.take(r as int)),
        decreases 8 - r,
    {
        let ghost s = 8 * w + r;
        proof {
            lemma_a8_word_digits(r as int, word as int);
            lemma_word_digits(w as int, r as int);
            assert(vals.take(r as int + 1).drop_last() =~= vals.take(r as int));
            assert(vals[r as int] == q@[source(s)]);
        }
        let i: usize = kt * 32 + (th % 4) * 4 + r / 2 + 16 * (r % 2);
        proof {
            assert(i < k);
            lemma_cell(o as int, i as int, n as int, k as int);
            assert(n * k == k * n) by (nonlinear_arith);
            assert(o * k + i == marlin_a8_source(k as int, n as int, s)) by {
                reveal(marlin_a8_source);
            }
        }
        v = v | ((q[o * k + i] as u32) << (4 * r as u32));
        r += 1;
    }
    assert(vals.take(8) =~= vals);
    v as i32
}

/// Row major `(n, k)` values to the words of the 8 bit activation layout.
pub fn pack_marlin_b_a8(q: &[u8], k: usize, n: usize) -> (b: Vec<i32>)
    requires
        marlin_a8_shape(k as int, n as int),
        q@.len() == k * n,
    ensures
        b@ == marlin_b_a8_words(q@, k as int, n as int),
{
    let words: usize = q.len() / 8;
    let f = |w: usize| -> (word: i32)
        requires
            w < k * n / 8,
        ensures
            word == packed_bits(
                gathered(q@, |s: int| marlin_a8_source(k as int, n as int, s), w as int),
            ) as i32,
        { marlin_a8_word(q, k, n, w) };
    let b: Vec<i32> = par_map(words, f);
    proof {
        assert forall|w: int| 0 <= w < b@.len() implies #[trigger] b@[w] == marlin_b_a8_words(
            q@,
            k as int,
            n as int,
        )[w] by {
            assert(call_ensures(f, (w as usize,), b@[w]));
        }
        assert(b@ =~= marlin_b_a8_words(q@, k as int, n as int));
    }
    b
}

/// Packing for 8 bit activations loses nothing either.
pub proof fn law_pack_marlin_b_a8_keeps_values(q: Seq<u8>, k: int, n: int, idx: int)
    requires
        marlin_a8_shape(k, n),
        q.len() == k * n,
        forall|x: int| 0 <= x < q.len() ==> #[trigger] q[x] < 16,
        0 <= idx < k * n,
    ensures
        ({
            let s = marlin_a8_place(k, n, idx);
            nibble(marlin_b_a8_words(q, k, n)[s / 8], s % 8) == q[idx]
        }),
{
    let s = marlin_a8_place(k, n, idx);
    let source = |x: int| marlin_a8_source(k, n, x);
    law_marlin_a8_layout_is_a_permutation(k, n, idx);
    lemma_a8_total(k, n);
    assert forall|x: int| 0 <= x < 8 * (k * n / 8) implies 0 <= #[trigger] source(x)
        < q.len() by {
        lemma_a8_place_of_source(k, n, x);
    }
    lemma_layout_keeps_values(q, source, (k * n / 8) as nat, s);
}

} // verus!
