use sparse_strips::div255::div_255;

#[test]
fn fallback_division() {
    for i in 0_u16..=(255 * 255) {
        let expected = i / 255;
        let actual = div_255(i);

        let diff = expected.abs_diff(actual);

        // Rounding error shouldn't be higher than 1.
        assert!(diff <= 1);

        if i % 255 == 0 {
            // Division should be accurate for multiples of 255.
            assert_eq!(diff, 0);
        }
    }
}

#[test]
fn mod_division() {
    for i in 0_u16..=(255 * 255) {
        let expected = i / 255;
        let actual = div_255(i);

        let diff = expected.abs_diff(actual);

        // Rounding error shouldn't be higher than 1.
        assert!(diff <= 1);

        if i % 255 == 0 {
            // Division should be accurate for multiples of 255.
            assert_eq!(diff, 0);
        }
    }
}
