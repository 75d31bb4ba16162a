use sparse_strips::div255::div_255;
use sparse_strips::NumberKind;

#[test]
fn div_255_exact_values() {
    assert_eq!(div_255(0), 0);
    assert_eq!(div_255(1), 1);
    assert_eq!(div_255(255), 1);
    assert_eq!(div_255(256), 1);
    assert_eq!(div_255(257), 2);
    assert_eq!(div_255(510), 2);
    assert_eq!(div_255(65025), 255);
    assert_eq!(div_255(65279), 255);
}

#[test]
fn div_255_is_monotonic() {
    let mut prev = div_255(0);
    for v in 1_u16..65280 {
        let cur = div_255(v);
        assert!(prev <= cur);
        prev = cur;
    }
}

#[test]
fn div_255_exact_on_multiples_of_255() {
    for v in 0_u16..=255 {
        assert_eq!(div_255(v * 255), v);
    }
}

#[test]
fn normalized_mul_identity_and_zero() {
    for a in 0_u8..=255 {
        assert_eq!(a.normalized_mul(255), a);
        assert_eq!(a.normalized_mul(0), 0);
    }
}

#[test]
fn normalized_mul_symmetric_and_bounded() {
    for a in 0_u8..=255 {
        for b in 0_u8..=255 {
            let p = a.normalized_mul(b);
            assert_eq!(p, b.normalized_mul(a));
            assert!(p <= a && p <= b);
        }
    }
}

#[test]
fn normalized_mul_exact_values() {
    assert_eq!(128_u8.normalized_mul(128), 64);
    assert_eq!(200_u8.normalized_mul(100), 79);
    assert_eq!(1_u8.normalized_mul(1), 1);
}

#[test]
fn u8_rgba8_conversions() {
    let c = [10_u8, 20, 30, 40, 50];
    assert_eq!(<u8 as NumberKind>::to_rgba8(&c), [10, 20, 30, 40]);
    assert_eq!(<u8 as NumberKind>::from_rgba8(&[1, 2, 3, 4]), [1, 2, 3, 4]);
    assert_eq!(<u8 as NumberKind>::ZERO, 0);
    assert_eq!(<u8 as NumberKind>::MID, 127);
    assert_eq!(<u8 as NumberKind>::ONE, 255);
}
