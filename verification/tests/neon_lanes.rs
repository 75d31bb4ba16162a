use sparse_strips::neon::u32x4::u32x4;
use sparse_strips::neon::u32x8::u32x8;
use sparse_strips::neon::u8x16::{u16x16, u8x16};
use sparse_strips::neon::u8x32::u8x32;
use sparse_strips::neon::u8x64::u8x64;
use sparse_strips::neon::{div_255, Neon};

fn seq16(start: u8, step: u8) -> [u8; 16] {
    let mut a = [0u8; 16];
    for i in 0..16 {
        a[i] = start.wrapping_add(step.wrapping_mul(i as u8));
    }
    a
}

#[test]
fn neon_level_exists_only_where_detected() {
    assert!(Neon::new(true).is_some());
    assert!(Neon::new(false).is_none());
}

#[test]
fn neon_div_255_wraps_at_the_top() {
    assert_eq!(div_255(0), 0);
    assert_eq!(div_255(255), 1);
    assert_eq!(div_255(65025), 255);
    assert_eq!(div_255(65279), 255);
    // 65280 + 255 is still below 65536.
    assert_eq!(div_255(65280), 255);
    // (65535 + 255) mod 65536 = 254, and 254 >> 8 = 0.
    assert_eq!(div_255(65535), 0);
}

#[test]
fn neon_u8x16_wrapping_arithmetic() {
    let a = u8x16::from_array(seq16(200, 5));
    let b = u8x16::splat(100);
    let sum = a.add(b).to_array();
    let diff = b.sub(a).to_array();
    let prod = a.mul(u8x16::splat(2)).to_array();
    let src = seq16(200, 5);
    for i in 0..16 {
        assert_eq!(sum[i], src[i].wrapping_add(100));
        assert_eq!(diff[i], 100u8.wrapping_sub(src[i]));
        assert_eq!(prod[i], src[i].wrapping_mul(2));
    }
}

#[test]
fn neon_u8x16_widening_products() {
    let a = u8x16::from_array(seq16(0, 17));
    let w = a.widening_mul(u8x16::splat(255)).to_array();
    let n = a.normalized_widening_mul(u8x16::splat(255)).to_array();
    for i in 0..16 {
        assert_eq!(w[i], 17 * i as u16 * 255);
        assert_eq!(n[i], 17 * i as u16);
    }
    assert_eq!(a.widen().narrow().to_array(), a.to_array());
    assert_eq!(
        a.splat_4th_element().to_array(),
        [51, 51, 51, 51, 119, 119, 119, 119, 187, 187, 187, 187, 255, 255, 255, 255]
    );
}

#[test]
fn neon_u16x16_clamp_and_normalize() {
    let v = u16x16::from_array([0, 1, 254, 255, 256, 1000, 65535, 300, 0, 0, 0, 0, 0, 0, 0, 0]);
    assert_eq!(
        v.clamp().to_array(),
        [0, 1, 254, 255, 255, 255, 255, 255, 0, 0, 0, 0, 0, 0, 0, 0]
    );
    let n = u16x16::splat(65025).normalize().to_array();
    assert_eq!(n, [255; 16]);
    assert_eq!(u16x16::splat(300).narrow().to_array(), [44; 16]);
    assert_eq!(u16x16::splat(65535).add(u16x16::splat(2)).to_array(), [1; 16]);
}

#[test]
fn neon_u8x32_lanes() {
    let lo = u8x16::from_array(seq16(0, 1));
    let hi = u8x16::from_array(seq16(16, 1));
    let v = u8x32::from_halves(lo, hi);
    let arr = v.to_array();
    for i in 0..32 {
        assert_eq!(arr[i], i as u8);
    }
    let s4 = u8x32::splat_4([1, 2, 3, 4]).to_array();
    for i in 0..32 {
        assert_eq!(s4[i], (i % 4) as u8 + 1);
    }
    let nm = v.normalized_mul(u8x32::splat(255)).narrow().to_array();
    assert_eq!(nm, arr);
}

#[test]
fn neon_u8x64_lanes() {
    let mut src = [0u8; 64];
    for i in 0..64 {
        src[i] = i as u8;
    }
    let v = u8x64::load(&src);
    let mut out = [0u8; 64];
    v.store(&mut out);
    assert_eq!(out, src);
    assert_eq!(v.to_bytes(), src);
    let mut alphas = [0u8; 64];
    let a: Vec<u8> = (0..16).collect();
    u8x64::load_alphas(&a).store(&mut alphas);
    for i in 0..64 {
        assert_eq!(alphas[i], (i / 4) as u8);
    }
    let mut nm = [0u8; 64];
    v.normalized_mul(u8x64::splat(255)).store(&mut nm);
    assert_eq!(nm, src);
    let mut w = [0u8; 64];
    v.widen().narrow().store(&mut w);
    assert_eq!(w, src);
}

#[test]
fn neon_u8x64_split_rows() {
    let mut src = [0u8; 64];
    for i in 0..64 {
        src[i] = i as u8;
    }
    let (r0, r1, r2, r3) = u8x64::load(&src).split_rows();
    // Pixel m of the group is column m / 4, row m % 4; each row holds the
    // four columns' pixels of that row, four bytes each.
    assert_eq!(r0, [0, 1, 2, 3, 16, 17, 18, 19, 32, 33, 34, 35, 48, 49, 50, 51]);
    assert_eq!(r1, [4, 5, 6, 7, 20, 21, 22, 23, 36, 37, 38, 39, 52, 53, 54, 55]);
    assert_eq!(r2, [8, 9, 10, 11, 24, 25, 26, 27, 40, 41, 42, 43, 56, 57, 58, 59]);
    assert_eq!(r3, [12, 13, 14, 15, 28, 29, 30, 31, 44, 45, 46, 47, 60, 61, 62, 63]);
}

#[test]
fn neon_select_by_comparison_is_lane_wise() {
    let a = u32x4::from_array([1, 5, 3, 7]);
    let b = u32x4::from_array([2, 2, 3, 9]);
    let mask = a.geq(b);
    assert_eq!(mask.to_array(), [0, u32::MAX, u32::MAX, 0]);
    let r = u32x4::if_then_else(mask, u32x4::splat(10), u32x4::splat(20));
    assert_eq!(r.to_array(), [20, 10, 10, 20]);
    assert_eq!(a.wrapping_sub(b).to_array(), [u32::MAX, 3, 0, u32::MAX - 1]);
    let x = u32x8::from_halves(a, b);
    let y = u32x8::splat(3);
    let m = x.geq(y);
    let mut out = [0u32; 8];
    u32x8::if_then_else(m, x, y).store(&mut out);
    assert_eq!(out, [3, 5, 3, 7, 3, 3, 3, 9]);
}
