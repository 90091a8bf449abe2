//! Conversions to half precision.

use half::f16;
use owl::f16c::{
    bf16_bytes_to_f16_bytes, f32_slice_to_f16_bytes, f32_to_bf16_bits, f32_to_f16_bits, half_bits,
};

#[test]
fn bf16_matches_half_scalar() {
    let vals: Vec<u16> = vec![
        0x0000, 0x8000, 0x3f80, 0xbf80, 0x7f80, 0xff80, 0x7fc0, 0x42c8, 0x3e00, 0x3d8f, 0x0001,
        0x0080, 0x477f, 0x4780,
    ];
    let src: Vec<u8> = vals.iter().flat_map(|v| v.to_le_bytes()).collect();
    let mut got = vec![0u8; src.len()];
    bf16_bytes_to_f16_bytes(&src, &mut got);
    for (i, b) in vals.iter().enumerate() {
        let want = f16::from_f32(f32::from_bits((*b as u32) << 16)).to_le_bytes();
        assert_eq!(&got[i * 2..i * 2 + 2], &want, "bf16 0x{:04x} at {}", b, i);
    }
}

#[test]
fn f32_matches_half_scalar() {
    let src: Vec<f32> = [0.0f32, -0.0, 1.0, -1.5, 65504.0, 65520.0, 1e-8, 5.9e-8, f32::INFINITY]
        .into_iter()
        .chain((0..1000).map(|i| i as f32 * 0.3717))
        .collect();
    let bits: Vec<u32> = src.iter().map(|f| f.to_bits()).collect();
    let mut got = vec![0u8; src.len() * 2];
    f32_slice_to_f16_bytes(&bits, &mut got);
    for (i, f) in src.iter().enumerate() {
        let want = f16::from_f32(*f).to_le_bytes();
        assert_eq!(&got[i * 2..i * 2 + 2], &want, "f32 {} at {}", f, i);
    }
}

/// Every sixteen bit brain float, and single floats around all of them.
#[test]
fn every_brain_float_rounds_as_half_does() {
    for top in 0..=0xffffu32 {
        for low in [0u32, 1, 0x0fff, 0x1000, 0x1001, 0x3000, 0x7fff, 0x8000, 0xffff] {
            let bits = (top << 16) | low;
            let want = f16::from_f32(f32::from_bits(bits)).to_bits();
            assert_eq!(half_bits(bits), want, "bits 0x{:08x}", bits);
        }
    }
}

/// Ties go to the even neighbour.
#[test]
fn halfway_singles_round_to_even() {
    assert_eq!(f32_to_f16_bits(0x3f80_1000), 0x3c00);
    assert_eq!(f32_to_f16_bits(0x3f80_3000), 0x3c02);
    assert_eq!(f32_to_f16_bits(0x3f80_1001), 0x3c01);
    assert_eq!(f32_to_f16_bits(65520.0f32.to_bits()), 0x7c00);
    assert_eq!(f32_to_f16_bits(65519.0f32.to_bits()), 0x7bff);
    assert_eq!(f32_to_f16_bits(0.0f32.to_bits()), 0);
}

/// Exact brain float values: a tie, one above it, and a sign.
#[test]
fn brain_float_bits() {
    assert_eq!(f32_to_bf16_bits(1.0f32.to_bits()), 0x3f80);
    assert_eq!(f32_to_bf16_bits((-2.5f32).to_bits()), 0xc020);
    assert_eq!(f32_to_bf16_bits(0x3f80_8000), 0x3f80);
    assert_eq!(f32_to_bf16_bits(0x3f81_8000), 0x3f82);
    assert_eq!(f32_to_bf16_bits(0x3f80_8001), 0x3f81);
}
