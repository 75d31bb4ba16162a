use sparse_strips::fallback::u32x4::u32x4;
use sparse_strips::fallback::u32x8::u32x8;
use sparse_strips::fallback::u8x16::{u16x16, u8x16};
use sparse_strips::fallback::u8x32::u8x32;
use sparse_strips::Widened;

fn seq16(start: u8, step: u8) -> [u8; 16] {
    let mut a = [0u8; 16];
    for i in 0..16 {
        a[i] = start + step * i as u8;
    }
    a
}

#[test]
fn u8x16_add_sub_mul() {
    let a = u8x16::from_array(seq16(0, 10));
    let b = u8x16::from_array([5; 16]);
    let sum = a.add(b).to_array();
    let diff = a.add(b).sub(b).to_array();
    for i in 0..16 {
        assert_eq!(sum[i], 10 * i as u8 + 5);
        assert_eq!(diff[i], 10 * i as u8);
    }
    let small = u8x16::from_array(seq16(0, 1));
    let prod = small.mul(u8x16::splat(3)).to_array();
    for i in 0..16 {
        assert_eq!(prod[i], 3 * i as u8);
    }
}

#[test]
fn u8x16_min_max() {
    let a = u8x16::from_array(seq16(0, 10));
    let b = u8x16::splat(75);
    let lo = a.min(b).to_array();
    let hi = a.max(b).to_array();
    for i in 0..16 {
        let v = 10 * i as u8;
        assert_eq!(lo[i], v.min(75));
        assert_eq!(hi[i], v.max(75));
    }
}

#[test]
fn u8x16_splats_and_loads() {
    let s4 = u8x16::splat_4([1, 2, 3, 4]).to_array();
    assert_eq!(s4, [1, 2, 3, 4, 1, 2, 3, 4, 1, 2, 3, 4, 1, 2, 3, 4]);
    let src = u8x16::from_array(seq16(0, 1));
    let s4th = src.splat_4th_element().to_array();
    assert_eq!(s4th, [3, 3, 3, 3, 7, 7, 7, 7, 11, 11, 11, 11, 15, 15, 15, 15]);
    let alphas = u8x16::load_alphas(&[9, 8, 7, 6]).to_array();
    assert_eq!(alphas, [9, 9, 9, 9, 8, 8, 8, 8, 7, 7, 7, 7, 6, 6, 6, 6]);
    let slice: Vec<u8> = (100..116).collect();
    let loaded = u8x16::load(&slice).to_array();
    assert_eq!(&loaded[..], &slice[..]);
    let mut out = [0u8; 16];
    u8x16::from_normalized_u8(42).store(&mut out);
    assert_eq!(out, [42; 16]);
    assert_eq!(u8x16::zero().to_array(), [0; 16]);
    assert_eq!(u8x16::mid().to_array(), [127; 16]);
    assert_eq!(u8x16::one().to_array(), [255; 16]);
}

#[test]
fn u8x16_normalized_arithmetic() {
    let a = u8x16::from_array(seq16(0, 17));
    let one = u8x16::one();
    assert_eq!(a.normalized_mul(one).to_array(), a.to_array());
    assert_eq!(a.normalized_mul(u8x16::zero()).to_array(), [0; 16]);
    let inv = a.one_minus().to_array();
    for i in 0..16 {
        assert_eq!(inv[i], 255 - 17 * i as u8);
    }
    let half = u8x16::splat(128);
    let r = half.normalized_mul_add(half, u8x16::splat(10)).to_array();
    assert_eq!(r, [74; 16]);
    let r = half.normalized_mul_sub(half, u8x16::splat(100)).to_array();
    assert_eq!(r, [36; 16]);
    let r = half.normalized_mul_mul_add(half, half, half).to_array();
    assert_eq!(r, [128; 16]);
}

#[test]
fn widen_then_narrow_gives_back_the_lanes() {
    let a = u8x16::from_array(seq16(3, 15));
    let w = a.widen();
    let w_arr = w.to_array();
    for i in 0..16 {
        assert_eq!(w_arr[i], a.to_array()[i] as u16);
    }
    assert_eq!(w.narrow().to_array(), a.to_array());
}

#[test]
fn u16x16_arithmetic_and_normalize() {
    let a = u16x16::from_array([1000; 16]);
    let b = u16x16::from_array([255; 16]);
    assert_eq!(a.add(b).to_array(), [1255; 16]);
    assert_eq!(a.sub(b).to_array(), [745; 16]);
    assert_eq!(b.mul(b).to_array(), [65025; 16]);
    assert_eq!(b.mul(b).normalize().to_array(), [255; 16]);
    assert_eq!(a.normalize().to_array(), [4; 16]);
    assert_eq!(u16x16::from_array([300; 16]).narrow().to_array(), [44; 16]);
}

#[test]
fn u8x32_lanes() {
    let lo = u8x16::from_array(seq16(0, 1));
    let hi = u8x16::from_array(seq16(16, 1));
    let v = u8x32::from_halves(lo, hi);
    let mut out = [0u8; 32];
    v.store(&mut out);
    for i in 0..32 {
        assert_eq!(out[i], i as u8);
    }
    let mut s4th = [0u8; 32];
    v.splat_4th_element().store(&mut s4th);
    for i in 0..32 {
        assert_eq!(s4th[i], ((i / 4) * 4 + 3) as u8);
    }
    let mut alphas = [0u8; 32];
    u8x32::load_alphas(&[1, 2, 3, 4, 5, 6, 7, 8]).store(&mut alphas);
    for i in 0..32 {
        assert_eq!(alphas[i], (i / 4 + 1) as u8);
    }
    let mut sum = [0u8; 32];
    v.add(u8x32::splat(100)).sub(u8x32::splat(1)).store(&mut sum);
    for i in 0..32 {
        assert_eq!(sum[i], i as u8 + 99);
    }
    let mut nm = [0u8; 32];
    v.normalized_mul(u8x32::splat(255)).store(&mut nm);
    assert_eq!(nm, out);
    let mut narrowed = [0u8; 32];
    v.widen().narrow().store(&mut narrowed);
    assert_eq!(narrowed, out);
}

#[test]
fn u32x4_compare_and_select() {
    let a = u32x4::from_array([1, 5, 3, 7]);
    let b = u32x4::from_array([2, 2, 3, 9]);
    assert_eq!(a.geq(b), [false, true, true, false]);
    let mut out = [0u32; 4];
    a.add(b).store(&mut out);
    assert_eq!(out, [3, 7, 6, 16]);
    // The portable select decides on the first lane for all lanes.
    u32x4::if_then_else([true, false, false, false], a, b).store(&mut out);
    assert_eq!(out, [1, 5, 3, 7]);
    u32x4::if_then_else([false, true, true, true], a, b).store(&mut out);
    assert_eq!(out, [2, 2, 3, 9]);
    u32x4::splat(6).store(&mut out);
    assert_eq!(out, [6; 4]);
}

#[test]
fn u32x8_compare_and_select() {
    let a = u32x8::from_halves(u32x4::from_array([1, 5, 3, 7]), u32x4::from_array([9, 9, 9, 9]));
    let b = u32x8::splat(4);
    let (lo, hi) = a.geq(b);
    assert_eq!(lo, [false, true, false, true]);
    assert_eq!(hi, [true; 4]);
    let mut out = [0u32; 8];
    u32x8::if_then_else((lo, hi), a, b).store(&mut out);
    assert_eq!(out, [4, 4, 4, 4, 9, 9, 9, 9]);
    a.add(b).store(&mut out);
    assert_eq!(out, [5, 9, 7, 11, 13, 13, 13, 13]);
}
