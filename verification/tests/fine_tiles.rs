use sparse_strips::fine::{Cmd, CmdAlphaFill, CmdFill, EncodedPaint, Fine};
use sparse_strips::pack::pack;

fn div_255(v: u32) -> u32 {
    (v + 255) >> 8
}

fn src_over(bg: u8, s: u8, a: u8) -> u8 {
    (s as u32 + div_255(bg as u32 * (255 - a as u32))) as u8
}

fn strip(bg: u8, s: u8, a: u8, m: u8) -> u8 {
    div_255(bg as u32 * (255 - div_255(m as u32 * a as u32)) + s as u32 * m as u32) as u8
}

fn pixel(out: &[u8], width: usize, col: usize, row: usize) -> [u8; 4] {
    let k = (row * width + col) * 4;
    [out[k], out[k + 1], out[k + 2], out[k + 3]]
}

#[test]
fn fine_clear_then_pack_paints_the_whole_tile() {
    let mut fine = Fine::new(256, 4, vec![0; 256 * 4 * 4]);
    fine.clear([10, 20, 30, 40]);
    fine.pack(0, 0);
    let out = fine.into_out_buf();
    for row in 0..4 {
        for col in 0..256 {
            assert_eq!(pixel(&out, 256, col, row), [10, 20, 30, 40]);
        }
    }
}

#[test]
fn fine_opaque_fill_replaces_its_columns() {
    let mut fine = Fine::new(256, 4, vec![0; 256 * 4 * 4]);
    fine.clear([1, 2, 3, 4]);
    fine.fill(2, 3, &EncodedPaint::Solid([255, 0, 0, 255]));
    fine.pack(0, 0);
    let out = fine.into_out_buf();
    for row in 0..4 {
        for col in 0..256 {
            let expected = if (2..5).contains(&col) { [255, 0, 0, 255] } else { [1, 2, 3, 4] };
            assert_eq!(pixel(&out, 256, col, row), expected);
        }
    }
}

#[test]
fn fine_semi_transparent_fill_composites_source_over() {
    let mut fine = Fine::new(256, 4, vec![0; 256 * 4 * 4]);
    let bg = [100, 80, 60, 255];
    let src = [50, 0, 25, 128];
    fine.clear(bg);
    fine.fill(0, 1, &EncodedPaint::Solid(src));
    fine.pack(0, 0);
    let out = fine.into_out_buf();
    let expected = [
        src_over(bg[0], src[0], src[3]),
        src_over(bg[1], src[1], src[3]),
        src_over(bg[2], src[2], src[3]),
        src_over(bg[3], src[3], src[3]),
    ];
    assert_eq!(expected, [100, 40, 55, 255]);
    for row in 0..4 {
        assert_eq!(pixel(&out, 256, 0, row), expected);
        assert_eq!(pixel(&out, 256, 1, row), bg);
    }
}

#[test]
fn fine_transparent_fill_keeps_the_tile() {
    let mut fine = Fine::new(256, 4, vec![0; 256 * 4 * 4]);
    fine.clear([9, 8, 7, 200]);
    fine.fill(0, 256, &EncodedPaint::Solid([0, 0, 0, 0]));
    fine.pack(0, 0);
    let out = fine.into_out_buf();
    for row in 0..4 {
        for col in 0..256 {
            assert_eq!(pixel(&out, 256, col, row), [9, 8, 7, 200]);
        }
    }
}

#[test]
fn fine_shaded_fill_uses_one_color_per_pixel() {
    let mut fine = Fine::new(256, 4, vec![0; 256 * 4 * 4]);
    fine.clear([0, 0, 0, 0]);
    let mut colors = Vec::new();
    for p in 0..8u8 {
        colors.extend_from_slice(&[p * 10, p, 0, 255]);
    }
    fine.fill(1, 2, &EncodedPaint::Shaded(colors));
    fine.pack(0, 0);
    let out = fine.into_out_buf();
    for p in 0..8usize {
        let (col, row) = (1 + p / 4, p % 4);
        assert_eq!(pixel(&out, 256, col, row), [p as u8 * 10, p as u8, 0, 255]);
    }
    assert_eq!(pixel(&out, 256, 0, 0), [0, 0, 0, 0]);
    assert_eq!(pixel(&out, 256, 3, 0), [0, 0, 0, 0]);
}

#[test]
fn fine_strip_weights_by_coverage() {
    let mut fine = Fine::new(256, 4, vec![0; 256 * 4 * 4]);
    let bg = [200, 100, 50, 255];
    let src = [0, 0, 128, 128];
    fine.clear(bg);
    let alphas = [0u8, 64, 128, 255, 255, 255, 255, 255];
    fine.strip(3, 2, &alphas, &EncodedPaint::Solid(src));
    fine.pack(0, 0);
    let out = fine.into_out_buf();
    for p in 0..8usize {
        let (col, row) = (3 + p / 4, p % 4);
        let m = alphas[p];
        let expected = [
            strip(bg[0], src[0], src[3], m),
            strip(bg[1], src[1], src[3], m),
            strip(bg[2], src[2], src[3], m),
            strip(bg[3], src[3], src[3], m),
        ];
        assert_eq!(pixel(&out, 256, col, row), expected);
    }
    // No coverage: the pixel stays as it was.
    assert_eq!(pixel(&out, 256, 3, 0), bg);
    assert_eq!(pixel(&out, 256, 2, 0), bg);
}

#[test]
fn fine_run_cmd_dispatches_fill_and_strip() {
    let mut fine = Fine::new(256, 4, vec![0; 256 * 4 * 4]);
    fine.clear([0, 0, 0, 0]);
    let alphas = [9u8, 9, 255, 255, 255, 255];
    fine.run_cmd(
        &Cmd::Fill(CmdFill { x: 0, width: 1, paint: EncodedPaint::Solid([1, 2, 3, 255]) }),
        &alphas,
    );
    fine.run_cmd(
        &Cmd::AlphaFill(CmdAlphaFill {
            x: 5,
            width: 1,
            alpha_ix: 2,
            paint: EncodedPaint::Solid([0, 0, 255, 255]),
        }),
        &alphas,
    );
    fine.pack(0, 0);
    let out = fine.into_out_buf();
    for row in 0..4 {
        assert_eq!(pixel(&out, 256, 0, row), [1, 2, 3, 255]);
        assert_eq!(pixel(&out, 256, 5, row), [0, 0, 255, 255]);
        assert_eq!(pixel(&out, 256, 6, row), [0, 0, 0, 0]);
    }
}

#[test]
fn pack_writes_only_the_part_inside_the_pixmap() {
    // A 300 x 6 pixmap: the wide tile at (1, 1) has 44 columns and 2 rows inside.
    let (width, height) = (300usize, 6usize);
    let mut out = vec![7u8; width * height * 4];
    let mut tile = vec![0u8; 4096];
    for i in 0..256 {
        for j in 0..4 {
            for c in 0..4 {
                tile[(i * 4 + j) * 4 + c] = (i + j * 3 + c) as u8;
            }
        }
    }
    pack::<u8>(&mut out, &tile, 1, 1, width, height);
    for row in 0..height {
        for col in 0..width {
            let got = pixel(&out, width, col, row);
            if row >= 4 && col >= 256 {
                let (i, j) = (col - 256, row - 4);
                let expected = [
                    (i + j * 3) as u8,
                    (i + j * 3 + 1) as u8,
                    (i + j * 3 + 2) as u8,
                    (i + j * 3 + 3) as u8,
                ];
                assert_eq!(got, expected);
            } else {
                assert_eq!(got, [7, 7, 7, 7]);
            }
        }
    }
}
