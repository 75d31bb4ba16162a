use sparse_strips::fine::{EncodedPaint, Fine as Fine1};
use sparse_strips::fine2::lowp::compose::Compose;
use sparse_strips::fine2::{BlendMode, Cmd, CmdAlphaFill, Fine, Mix, Paint};
use sparse_strips::fine_experiments::opaque_u8;
use sparse_strips::neon::u8x64::u8x64;
use sparse_strips::pack::pack;

fn top(fine: &Fine) -> Vec<u8> {
    let mut out = vec![0u8; 256 * 4 * 4];
    fine.pack(&mut out, 256, 4);
    out
}

fn normal() -> BlendMode {
    BlendMode { mix: Mix::Normal, compose: Compose::SrcOver }
}

#[test]
fn src_over_keeps_colors_premultiplied() {
    let mut fine = Fine1::new(256, 4, vec![0; 256 * 4 * 4]);
    fine.clear([30, 20, 10, 40]);
    for (i, src) in [[0u8, 0, 0, 0], [10, 20, 30, 30], [200, 100, 0, 200], [255, 255, 255, 255]]
        .iter()
        .enumerate()
    {
        fine.fill(i * 4, 4, &EncodedPaint::Solid(*src));
    }
    fine.pack(0, 0);
    let out = fine.into_out_buf();
    for px in out.chunks(4) {
        assert!(px[0] <= px[3] && px[1] <= px[3] && px[2] <= px[3]);
    }
}

#[test]
fn strip_with_full_coverage_of_an_opaque_color_replaces() {
    let mut fine = Fine1::new(256, 4, vec![0; 256 * 4 * 4]);
    fine.clear([30, 20, 10, 40]);
    fine.strip(0, 2, &[255; 8], &EncodedPaint::Solid([1, 2, 250, 255]));
    fine.pack(0, 0);
    let out = fine.into_out_buf();
    for row in 0..4 {
        for col in 0..2 {
            let k = (row * 256 + col) * 4;
            assert_eq!(&out[k..k + 4], &[1, 2, 250, 255]);
        }
    }
}

#[test]
fn source_over_compose_agrees_with_the_source_over_kernel() {
    // A non-default mix takes the general compose path; with source-over
    // composition it gives what the dedicated source-over kernel gives.
    let bg = [90, 60, 30, 200];
    let src = [40, 50, 60, 120];
    let mut a = Fine::new();
    a.clear(bg);
    a.fill(0, 8, &Paint::Solid(src), normal());
    let mut b = Fine::new();
    b.clear(bg);
    b.fill(0, 8, &Paint::Solid(src), BlendMode { mix: Mix::Multiply, compose: Compose::SrcOver });
    assert_eq!(top(&a), top(&b));
}

#[test]
fn plus_lighter_composes_as_source_over() {
    let bg = [90, 60, 30, 200];
    let src = [40, 50, 60, 120];
    let mut a = Fine::new();
    a.clear(bg);
    a.fill(0, 8, &Paint::Solid(src), BlendMode { mix: Mix::Normal, compose: Compose::PlusLighter });
    let mut b = Fine::new();
    b.clear(bg);
    b.fill(0, 8, &Paint::Solid(src), BlendMode { mix: Mix::Multiply, compose: Compose::SrcOver });
    assert_eq!(top(&a), top(&b));
}

#[test]
fn uncovered_pixels_keep_their_color_in_any_mode() {
    let bg = [90, 60, 30, 200];
    let mut fine = Fine::new();
    fine.clear(bg);
    let mode = BlendMode { mix: Mix::Screen, compose: Compose::SrcOver };
    fine.strip(0, 2, &[0; 8], &Paint::Solid([255, 255, 255, 255]), mode);
    assert!(top(&fine).chunks(4).all(|p| p == bg));
}

#[test]
fn opaque_shaded_colors_composite_as_a_copy() {
    let mut colors = Vec::new();
    for p in 0..16u8 {
        colors.extend_from_slice(&[p, 2 * p, 3 * p, 255]);
    }
    let mut a = Fine::new();
    a.clear([7, 7, 7, 7]);
    a.fill(0, 4, &Paint::Shaded { colors: colors.clone(), has_opacities: true }, normal());
    let mut b = Fine::new();
    b.clear([7, 7, 7, 7]);
    b.fill(0, 4, &Paint::Shaded { colors, has_opacities: false }, normal());
    assert_eq!(top(&a), top(&b));
}

fn tile() -> Vec<u8> {
    (0..4096).map(|k| (k * 7 % 251) as u8).collect()
}

#[test]
fn neon_pack_writes_what_the_portable_pack_writes() {
    // A full tile, and a tile at the right and bottom edges of the pixmap.
    for &(width, height, x, y) in &[(512usize, 8usize, 1usize, 1usize), (300, 6, 1, 1), (256, 4, 0, 0)] {
        let mut a = vec![3u8; width * height * 4];
        let mut b = a.clone();
        pack::<u8>(&mut a, &tile(), x, y, width, height);
        u8x64::pack(&mut b, &tile(), x, y, width, height);
        assert_eq!(a, b);
    }
}

#[test]
fn neon_pack_of_a_full_tile() {
    let (width, height) = (512usize, 8usize);
    let mut out = vec![0u8; width * height * 4];
    let t = tile();
    u8x64::pack(&mut out, &t, 1, 1, width, height);
    for j in 0..4 {
        for i in 0..256 {
            for c in 0..4 {
                let k = ((4 + j) * width + 256 + i) * 4 + c;
                assert_eq!(out[k], t[(i * 4 + j) * 4 + c]);
            }
        }
    }
    assert!(out[..(4 * width) * 4].iter().all(|&v| v == 0));
}

#[test]
fn opaque_u8_writes_the_byte_swapped_color_in_groups_of_sixty_four() {
    let mut buf = vec![9u8; 4096];
    opaque_u8(&mut buf, 0, [1, 2, 3, 4], 5);
    // Five columns are eighty components: one full group of sixty-four.
    for k in 0..64 {
        assert_eq!(buf[k], [4, 3, 2, 1][k % 4]);
    }
    assert!(buf[64..].iter().all(|&v| v == 9));
}

#[test]
fn zero_coverage_strip_keeps_every_layer() {
    let mut fine = Fine::new();
    fine.clear([50, 40, 30, 60]);
    let lower = top(&fine);
    fine.push_buf();
    fine.clear([1, 2, 3, 4]);
    let upper = top(&fine);
    let alphas = [0u8; 16];
    let mut colors = Vec::new();
    for p in 0..8u8 {
        colors.extend_from_slice(&[p, p, p, 200]);
    }
    fine.run_cmd(
        &Cmd::AlphaFill(CmdAlphaFill {
            x: 0,
            width: 2,
            alpha_idx: 4,
            paint: Paint::Shaded { colors, has_opacities: true },
            blend_mode: None,
        }),
        &alphas,
    );
    assert_eq!(top(&fine), upper);
    fine.pop_buf();
    assert_eq!(top(&fine), lower);
}

#[test]
fn fine2_default_fills_and_strips_keep_premultiplied() {
    let mut fine = Fine::new();
    fine.clear([30, 20, 10, 40]);
    fine.fill(0, 8, &Paint::Solid([100, 50, 120, 128]), normal());
    let alphas: Vec<u8> = (0..32).map(|k| (k * 37 % 256) as u8).collect();
    fine.strip(4, 8, &alphas, &Paint::Solid([200, 0, 255, 255]), normal());
    let mut colors = Vec::new();
    for p in 0..32u8 {
        colors.extend_from_slice(&[p, 2 * p, 3 * p, 3 * p + 5]);
    }
    fine.strip(8, 8, &alphas, &Paint::Shaded { colors, has_opacities: true }, normal());
    for px in top(&fine).chunks(4) {
        assert!(px[0] <= px[3] && px[1] <= px[3] && px[2] <= px[3]);
    }
}

#[test]
fn fine2_commands_keep_the_buffer_count() {
    let mut fine = Fine::new();
    fine.clear([1, 2, 3, 4]);
    let alphas = [0u8; 8];
    fine.run_cmd(&Cmd::PushBuf, &alphas);
    fine.run_cmd(&Cmd::PushBuf, &alphas);
    fine.run_cmd(&Cmd::PopBuf, &alphas);
    fine.run_cmd(&Cmd::PopBuf, &alphas);
    assert!(top(&fine).chunks(4).all(|p| p == [1, 2, 3, 4]));
}
