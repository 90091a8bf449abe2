//! Quantized weight layouts.

use owl::kernels::marlin::moe::{moe_align_block_size, repack_moe};
use owl::kernels::marlin::repack::{
    marlin_perm, marlin_scale_perm, marlin_scale_perm_single, pack_marlin_b, pack_marlin_b_a8,
    unpack_nibbles,
};
use owl::kernels::marlin::scales::{
    pack_marlin_s, pack_marlin_s_a8, pack_marlin_s_f32, pack_marlin_z, unpack_zp_ct,
};
use owl::kernels::marlin::{
    c_tmp_float_len_v2, is_foreign, launch_outcome, v2_err_str, v2_workspace_len, GEMM_W4A16,
    V2_ERR_BAD_SHAPE, V2_ERR_NO_CONFIG, V2_ERR_UNSUPPORTED_DEVICE,
};

/// Row major `(n, k)` nibbles with a pattern that differs along both axes.
fn pattern(n: usize, k: usize) -> Vec<u8> {
    (0..n).flat_map(|o| (0..k).map(move |i| ((o * 7 + i * 3) % 16) as u8)).collect()
}

/// A sum in which every word counts by its place.
fn weighted(words: &[i32]) -> u64 {
    words.iter().enumerate().map(|(j, w)| (j as u64 + 1) * (*w as u32 as u64)).sum()
}

#[test]
fn perm_shapes() {
    assert_eq!(marlin_perm().len(), 1024);
    assert_eq!(marlin_scale_perm().len(), 64);
}

#[test]
fn perm_values() {
    let perm = marlin_perm();
    assert_eq!(
        perm[..16],
        [0, 128, 8, 136, 16, 144, 24, 152, 256, 384, 264, 392, 272, 400, 280, 408]
    );
    assert_eq!(perm[1016..], [871, 999, 879, 1007, 887, 1015, 895, 1023]);
    assert_eq!(marlin_scale_perm()[..10], [0, 8, 16, 24, 32, 40, 48, 56, 1, 9]);
    assert_eq!(
        marlin_scale_perm_single(),
        vec![
            0, 1, 8, 9, 16, 17, 24, 25, 2, 3, 10, 11, 18, 19, 26, 27, 4, 5, 12, 13, 20, 21, 28, 29,
            6, 7, 14, 15, 22, 23, 30, 31
        ]
    );
}

/// Every permutation takes each place once.
#[test]
fn perms_are_bijections() {
    for perm in [marlin_perm(), marlin_scale_perm(), marlin_scale_perm_single()] {
        let mut sorted = perm.clone();
        sorted.sort();
        assert_eq!(sorted, (0..perm.len()).collect::<Vec<usize>>());
    }
}

#[test]
fn nibbles_are_least_significant_first() {
    let packed = [0x7654_3210u32 as i32, 0xfedc_ba98u32 as i32];
    assert_eq!(unpack_nibbles(&packed, 1, 16), (0..16).collect::<Vec<u8>>());
    assert_eq!(unpack_nibbles(&packed, 2, 8), (0..16).collect::<Vec<u8>>());
}

/// Columns past the last whole word stay zero.
#[test]
fn nibbles_of_a_ragged_row() {
    let packed = [0x1111_1111, 0x2222_2222];
    assert_eq!(
        unpack_nibbles(&packed, 2, 10),
        vec![1, 1, 1, 1, 1, 1, 1, 1, 0, 0, 2, 2, 2, 2, 2, 2, 2, 2, 0, 0]
    );
}

#[test]
fn weights_in_tile_order() {
    let b = pack_marlin_b(&pattern(256, 128), 128, 256);
    assert_eq!(b.len(), 4096);
    assert_eq!(b[..2], [1001588864, 1001588864]);
    assert_eq!(b[1000], -1860604186);
    assert_eq!(b[4095], 1860582323);
    assert_eq!(weighted(&b), 18014089476556800);
}

#[test]
fn weights_in_wide_activation_order() {
    let b = pack_marlin_b_a8(&pattern(64, 32), 32, 64);
    assert_eq!(b.len(), 256);
    assert_eq!(b[..4], [-1721355520, 300858248, -1721355520, 300858248]);
    assert_eq!(b[100], -3368602);
    assert_eq!(b[255], 1714618589);
    assert_eq!(weighted(&b), 71520913982400);
}

/// Packing loses no nibble: each value comes out as often as it went in.
#[test]
fn packing_keeps_every_nibble() {
    let q: Vec<u8> = (0..128 * 256).map(|x: usize| ((x * x + x / 5) % 16) as u8).collect();
    let mut want = q.clone();
    want.sort();
    for words in [pack_marlin_b(&q, 128, 256), pack_marlin_b_a8(&q, 128, 256)] {
        let mut got = unpack_nibbles(&words, 1, 128 * 256);
        got.sort();
        assert_eq!(got, want);
    }
}

/// Weights joined along the output pack into joined rows.
#[test]
fn joined_weights_pack_apart() {
    let (k, n) = (128usize, 256usize);
    let first = pattern(n, k);
    let second: Vec<u8> = first.iter().map(|q| 15 - q).collect();
    let joined = pack_marlin_b(&[first.clone(), second.clone()].concat(), k, 2 * n);
    let (a, b) = (pack_marlin_b(&first, k, n), pack_marlin_b(&second, k, n));
    for row in 0..k / 16 {
        let words = &joined[row * 4 * n..(row + 1) * 4 * n];
        assert_eq!(&words[..2 * n], &a[row * 2 * n..(row + 1) * 2 * n]);
        assert_eq!(&words[2 * n..], &b[row * 2 * n..(row + 1) * 2 * n]);
    }
}

#[test]
fn scales_in_kernel_order() {
    let scales: Vec<u32> = (0..64).collect();
    let r = pack_marlin_s_f32(&scales, 32, 2);
    assert_eq!(r[..12], [0, 16, 32, 48, 1, 17, 33, 49, 2, 18, 34, 50]);
    assert_eq!(r[60..], [15, 31, 47, 63]);
}

#[test]
fn scales_as_halves() {
    let scales: Vec<u32> = (0..64).map(|x| (x as f32).to_bits()).collect();
    let r = pack_marlin_s(&scales, 32, 2);
    let want: Vec<u16> = pack_marlin_s_f32(&scales, 32, 2)
        .iter()
        .map(|b| half::f16::from_f32(f32::from_bits(*b)).to_bits())
        .collect();
    assert_eq!(r, want);
    assert_eq!(r[1], 0x4c00);
}

fn round_to_grid(v: u32, max: u32) -> i64 {
    (f32::from_bits(v) / f32::from_bits(max) * 4096.0).round() as i64
}

#[test]
fn integer_scales() {
    let scales: Vec<u32> = (0..64).map(|x| (x as f32 - 1.0).to_bits()).collect();
    let (bits, max) = pack_marlin_s_a8(&scales, 32, 2, round_to_grid);
    assert_eq!(f32::from_bits(max), 62.0);
    assert_eq!(bits.len(), 64);
    // The first scale is negative and becomes zero, then come 1, 15 and 17.
    assert_eq!(bits[..4], [0, 66, 991, 1123]);
    assert_eq!(bits[63], 4096);
}

#[test]
fn integer_scales_are_clamped() {
    let scales: Vec<u32> = vec![1.0f32.to_bits(); 32];
    let (bits, _) = pack_marlin_s_a8(&scales, 32, 1, |_, _| 1 << 40);
    assert_eq!(bits, vec![32767; 32]);
    let (low, _) = pack_marlin_s_a8(&scales, 32, 1, |_, _| -5);
    assert_eq!(low, vec![0; 32]);
}

/// With nothing above zero there is nothing to divide by.
#[test]
fn integer_scales_of_zeros() {
    let (bits, max) = pack_marlin_s_a8(&[0, 0, (-1.0f32).to_bits()], 3, 1, round_to_grid);
    assert_eq!(bits, vec![0, 0, 0]);
    assert_eq!(max, 0);
}

#[test]
fn zero_points_along_rows() {
    let packed = [0x7654_3210, 0x0000_000f, 0x1111_1111, 0x2222_2222];
    let z = unpack_zp_ct(&packed, 16, 2);
    assert_eq!(z[..6], [0, 15, 1, 0, 2, 0]);
    assert_eq!(z[16..20], [1, 2, 1, 2]);
    assert_eq!(unpack_zp_ct(&[0x7654_3210], 9, 1), vec![0, 1, 2, 3, 4, 5, 6, 7, 0]);
}

#[test]
fn zero_points_in_kernel_order() {
    let zp: Vec<u8> = (0..32).flat_map(|o| (0..2).map(move |g| ((o * 3 + g) % 16) as u8)).collect();
    assert_eq!(
        pack_marlin_z(&zp, 32, 2),
        vec![
            -1719136000,
            -860142541,
            -1149082,
            571583129,
            1430576588,
            -2005466881,
            -1146473694,
            -287480235
        ]
    );
}

/// Gate and up are joined before they are packed, expert by expert.
#[test]
fn experts_are_packed_one_after_another() {
    let (hidden, inter, group) = (256usize, 128usize, 128usize);
    let part = |seed: usize, n: usize| -> Vec<u8> {
        (0..n).map(|x| ((x * 5 + x / 7 + seed) % 16) as u8).collect()
    };
    let scales = |seed: u32, n: usize| -> Vec<u32> { (0..n as u32).map(|x| x + seed).collect() };
    let gate: Vec<Vec<u8>> = (0..2).map(|e| part(e, inter * hidden)).collect();
    let up: Vec<Vec<u8>> = (0..2).map(|e| part(e + 9, inter * hidden)).collect();
    let down: Vec<Vec<u8>> = (0..2).map(|e| part(e + 5, inter * hidden)).collect();
    let gate_s: Vec<Vec<u32>> = (0..2).map(|e| scales(e * 1000, inter * 2)).collect();
    let up_s: Vec<Vec<u32>> = (0..2).map(|e| scales(e * 1000 + 500, inter * 2)).collect();
    let down_s: Vec<Vec<u32>> = (0..2).map(|e| scales(e * 1000 + 7, hidden)).collect();
    let r = repack_moe(&gate, &up, &down, &gate_s, &up_s, &down_s, hidden, inter, group);
    let mut w13 = Vec::new();
    let mut w2 = Vec::new();
    let mut w13_s = Vec::new();
    let mut w2_s = Vec::new();
    for e in 0..2 {
        let joined = [gate[e].clone(), up[e].clone()].concat();
        w13.extend(pack_marlin_b(&joined, hidden, 2 * inter));
        w2.extend(pack_marlin_b(&down[e], inter, hidden));
        w13_s.extend(pack_marlin_s_f32(&[gate_s[e].clone(), up_s[e].clone()].concat(), 2 * inter, 2));
        w2_s.extend(pack_marlin_s_f32(&down_s[e], hidden, 1));
    }
    assert_eq!(r.w13, w13);
    assert_eq!(r.w2, w2);
    assert_eq!(r.w13_s, w13_s);
    assert_eq!(r.w2_s, w2_s);
}

#[test]
fn tokens_are_aligned_by_expert() {
    let ids = [2, 3, 4, 1, 2, 4, 1, 3, 4, 1, 2, 3];
    let r = moe_align_block_size(&ids, 4, 3, 4, 5);
    assert_eq!(r.sorted_token_ids, vec![3, 6, 9, 12, 0, 4, 10, 12, 1, 7, 11, 12, 2, 5, 8, 12]);
    assert_eq!(r.expert_ids, vec![1, 2, 3, 4]);
    assert_eq!(r.num_tokens_post_padded, vec![16]);
}

#[test]
fn an_expert_may_fill_several_blocks() {
    let r = moe_align_block_size(&[0, 0, 0, 2], 2, 2, 2, 3);
    assert_eq!(r.sorted_token_ids, vec![0, 1, 2, 4, 3, 4]);
    assert_eq!(r.expert_ids, vec![0, 0, 2]);
    assert_eq!(r.num_tokens_post_padded, vec![6]);
    let none = moe_align_block_size(&[], 0, 3, 4, 2);
    assert_eq!(none.sorted_token_ids.len(), 0);
    assert_eq!(none.num_tokens_post_padded, vec![0]);
}

#[test]
fn launch_codes() {
    assert_eq!(launch_outcome(0), Ok(()));
    assert_eq!(launch_outcome(V2_ERR_BAD_SHAPE), Err(4));
    assert!(is_foreign(GEMM_W4A16));
    assert!(!is_foreign("marlin_gemm"));
    let known = [V2_ERR_NO_CONFIG, V2_ERR_BAD_SHAPE, V2_ERR_UNSUPPORTED_DEVICE];
    for (x, a) in known.iter().enumerate() {
        for b in &known[x + 1..] {
            assert_ne!(v2_err_str(*a), v2_err_str(*b));
        }
        assert_ne!(v2_err_str(*a), v2_err_str(99));
    }
}

#[test]
fn buffer_lengths() {
    assert_eq!(v2_workspace_len(128), 256);
    assert_eq!(v2_workspace_len(63), 0);
    assert_eq!(c_tmp_float_len_v2(1, 2), 2 * 16 * 256);
    assert_eq!(c_tmp_float_len_v2(100, 84), 84 * 64 * 256);
    assert_eq!(c_tmp_float_len_v2(0, 84), 0);
}
