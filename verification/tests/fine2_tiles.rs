use sparse_strips::fine2::lowp::compose::Compose;
use sparse_strips::fine2::{
    BlendMode, Cmd, CmdAlphaFill, CmdClipAlphaFill, CmdClipFill, CmdFill, Fine, Mix, Paint,
};

fn d(v: u32) -> u32 {
    (v + 255) >> 8
}

fn src_over(bg: u8, s: u8, a: u8) -> u8 {
    ((s as u32 + d(bg as u32 * (255 - a as u32))) % 256) as u8
}

fn strip(bg: u8, s: u8, a: u8, m: u8) -> u8 {
    d(bg as u32 * (255 - d(m as u32 * a as u32)) + s as u32 * m as u32) as u8
}

fn compose(mode: Compose, s: u8, sa: u8, bg: u8, ba: u8, m: u8) -> u8 {
    let al_s = d(sa as u32 * m as u32);
    let al_b = ba as u32;
    let (fa, fb) = match mode {
        Compose::Clear => (0, 0),
        Compose::Copy => (255, 0),
        Compose::Dest => (0, 255),
        Compose::SrcOver => (255, 255 - al_s),
        Compose::DestOver => (255 - al_b, 255),
        Compose::SrcIn => (al_b, 0),
        Compose::DestIn => (0, al_s),
        Compose::SrcOut => (255 - al_b, 0),
        Compose::DestOut => (0, 255 - al_s),
        Compose::SrcAtop => (al_b, 255 - al_s),
        Compose::DestAtop => (255 - al_b, al_s),
        Compose::Xor => (255 - al_b, 255 - al_s),
        Compose::Plus => (255, 255),
        Compose::PlusLighter => (255, 255 - al_s),
    };
    let s2 = d(s as u32 * m as u32);
    let sum = d(s2 * fa) + d(fb * bg as u32);
    if mode == Compose::Plus {
        sum.min(255) as u8
    } else {
        (sum % 256) as u8
    }
}

fn normal() -> BlendMode {
    BlendMode { mix: Mix::Normal, compose: Compose::SrcOver }
}

fn with(compose: Compose) -> BlendMode {
    BlendMode { mix: Mix::Normal, compose }
}

/// The top blend buffer of `fine`, packed into a 256 x 4 pixmap.
fn top(fine: &Fine) -> Vec<u8> {
    let mut out = vec![0u8; 256 * 4 * 4];
    fine.pack(&mut out, 256, 4);
    out
}

fn pixel(out: &[u8], col: usize, row: usize) -> [u8; 4] {
    let k = (row * 256 + col) * 4;
    [out[k], out[k + 1], out[k + 2], out[k + 3]]
}

#[test]
fn fine2_new_is_transparent_and_clear_paints() {
    let mut fine = Fine::new();
    assert!(top(&fine).iter().all(|&v| v == 0));
    fine.clear([1, 2, 3, 4]);
    let out = top(&fine);
    for row in 0..4 {
        for col in 0..256 {
            assert_eq!(pixel(&out, col, row), [1, 2, 3, 4]);
        }
    }
}

#[test]
fn fine2_pack_uses_the_wide_tile_coordinates() {
    let mut fine = Fine::new();
    fine.clear([5, 6, 7, 8]);
    fine.set_coords(1, 1);
    let (width, height) = (300usize, 6usize);
    let mut out = vec![0u8; width * height * 4];
    fine.pack(&mut out, width, height);
    for row in 0..height {
        for col in 0..width {
            let k = (row * width + col) * 4;
            let got = [out[k], out[k + 1], out[k + 2], out[k + 3]];
            let expected = if row >= 4 && col >= 256 { [5, 6, 7, 8] } else { [0, 0, 0, 0] };
            assert_eq!(got, expected);
        }
    }
}

#[test]
fn fine2_opaque_fill_replaces_groups_of_sixty_four() {
    let mut fine = Fine::new();
    fine.clear([1, 1, 1, 1]);
    fine.fill(4, 4, &Paint::Solid([0, 200, 0, 255]), normal());
    let out = top(&fine);
    for row in 0..4 {
        for col in 0..256 {
            let expected = if (4..8).contains(&col) { [0, 200, 0, 255] } else { [1, 1, 1, 1] };
            assert_eq!(pixel(&out, col, row), expected);
        }
    }
}

#[test]
fn fine2_opaque_fill_of_one_column_writes_nothing() {
    // The opaque copy goes sixty-four components (four columns) at a time.
    let mut fine = Fine::new();
    fine.clear([1, 1, 1, 1]);
    fine.fill(0, 1, &Paint::Solid([0, 200, 0, 255]), normal());
    let out = top(&fine);
    assert_eq!(pixel(&out, 0, 0), [1, 1, 1, 1]);
}

#[test]
fn fine2_semi_transparent_fill_composites_source_over() {
    let mut fine = Fine::new();
    let bg = [100, 80, 60, 255];
    let src = [50, 0, 25, 128];
    fine.clear(bg);
    fine.fill(0, 8, &Paint::Solid(src), normal());
    let out = top(&fine);
    let expected = [
        src_over(bg[0], src[0], src[3]),
        src_over(bg[1], src[1], src[3]),
        src_over(bg[2], src[2], src[3]),
        src_over(bg[3], src[3], src[3]),
    ];
    assert_eq!(expected, [100, 40, 55, 255]);
    assert_eq!(pixel(&out, 7, 3), expected);
    assert_eq!(pixel(&out, 8, 0), bg);
}

#[test]
fn fine2_transparent_fill_keeps_the_tile() {
    let mut fine = Fine::new();
    fine.clear([9, 8, 7, 200]);
    fine.fill(0, 256, &Paint::Solid([0, 0, 0, 0]), normal());
    assert!(top(&fine).chunks(4).all(|p| p == [9, 8, 7, 200]));
}

#[test]
fn fine2_fill_in_other_blend_modes() {
    let bg = [40, 80, 120, 200];
    let src = [100, 50, 0, 150];
    for mode in [
        Compose::Clear,
        Compose::Copy,
        Compose::Dest,
        Compose::DestOver,
        Compose::SrcIn,
        Compose::DestIn,
        Compose::SrcOut,
        Compose::DestOut,
        Compose::SrcAtop,
        Compose::DestAtop,
        Compose::Xor,
        Compose::Plus,
        Compose::PlusLighter,
    ] {
        let mut fine = Fine::new();
        fine.clear(bg);
        fine.fill(2, 2, &Paint::Solid(src), with(mode));
        let out = top(&fine);
        let expected = [
            compose(mode, src[0], src[3], bg[0], bg[3], 255),
            compose(mode, src[1], src[3], bg[1], bg[3], 255),
            compose(mode, src[2], src[3], bg[2], bg[3], 255),
            compose(mode, src[3], src[3], bg[3], bg[3], 255),
        ];
        assert_eq!(pixel(&out, 2, 0), expected, "{:?}", mode);
        assert_eq!(pixel(&out, 3, 3), expected, "{:?}", mode);
        assert_eq!(pixel(&out, 4, 0), bg, "{:?}", mode);
    }
}

#[test]
fn fine2_clear_copy_and_dest_modes() {
    let bg = [40, 80, 120, 200];
    let src = [100, 50, 0, 150];
    let mut fine = Fine::new();
    fine.clear(bg);
    fine.fill(0, 2, &Paint::Solid(src), with(Compose::Clear));
    fine.fill(2, 2, &Paint::Solid(src), with(Compose::Copy));
    fine.fill(4, 2, &Paint::Solid(src), with(Compose::Dest));
    let out = top(&fine);
    assert_eq!(pixel(&out, 0, 0), [0, 0, 0, 0]);
    assert_eq!(pixel(&out, 2, 0), src);
    assert_eq!(pixel(&out, 4, 0), bg);
}

#[test]
fn fine2_shaded_fill() {
    let mut fine = Fine::new();
    fine.clear([0, 0, 0, 255]);
    let mut colors = Vec::new();
    for p in 0..8u8 {
        colors.extend_from_slice(&[p * 10, p * 5, p, 128]);
    }
    // With opacities: composited source-over.
    fine.fill(0, 2, &Paint::Shaded { colors: colors.clone(), has_opacities: true }, normal());
    // Without: copied.
    fine.fill(4, 2, &Paint::Shaded { colors: colors.clone(), has_opacities: false }, normal());
    let out = top(&fine);
    for p in 0..8usize {
        let c = [p as u8 * 10, p as u8 * 5, p as u8, 128];
        let over = [
            src_over(0, c[0], 128),
            src_over(0, c[1], 128),
            src_over(0, c[2], 128),
            src_over(255, 128, 128),
        ];
        assert_eq!(pixel(&out, p / 4, p % 4), over);
        assert_eq!(pixel(&out, 4 + p / 4, p % 4), c);
    }
}

#[test]
fn fine2_strip_weights_by_coverage() {
    let mut fine = Fine::new();
    let bg = [200, 100, 50, 255];
    let src = [0, 0, 128, 128];
    fine.clear(bg);
    let alphas = [0u8, 64, 128, 255, 255, 200, 100, 1];
    fine.strip(6, 2, &alphas, &Paint::Solid(src), normal());
    let out = top(&fine);
    for p in 0..8usize {
        let m = alphas[p];
        let expected = [
            strip(bg[0], src[0], src[3], m),
            strip(bg[1], src[1], src[3], m),
            strip(bg[2], src[2], src[3], m),
            strip(bg[3], src[3], src[3], m),
        ];
        assert_eq!(pixel(&out, 6 + p / 4, p % 4), expected);
    }
    assert_eq!(pixel(&out, 6, 0), bg);
}

#[test]
fn fine2_strip_in_another_blend_mode() {
    let mut fine = Fine::new();
    let bg = [200, 100, 50, 255];
    let src = [10, 20, 30, 40];
    fine.clear(bg);
    let alphas = [0u8, 64, 128, 255, 255, 200, 100, 1];
    fine.strip(0, 2, &alphas, &Paint::Solid(src), with(Compose::Xor));
    let out = top(&fine);
    for p in 0..8usize {
        let m = alphas[p];
        let expected = [
            compose(Compose::Xor, src[0], src[3], bg[0], bg[3], m),
            compose(Compose::Xor, src[1], src[3], bg[1], bg[3], m),
            compose(Compose::Xor, src[2], src[3], bg[2], bg[3], m),
            compose(Compose::Xor, src[3], src[3], bg[3], bg[3], m),
        ];
        assert_eq!(pixel(&out, p / 4, p % 4), expected);
    }
}

#[test]
fn fine2_push_blend_pop_of_a_transparent_layer_keeps_the_tile() {
    let mut fine = Fine::new();
    fine.clear([30, 60, 90, 255]);
    let before = top(&fine);
    fine.push_buf();
    assert!(top(&fine).iter().all(|&v| v == 0));
    fine.apply_blend(normal());
    fine.pop_buf();
    assert_eq!(top(&fine), before);
}

#[test]
fn fine2_pop_undoes_push() {
    let mut fine = Fine::new();
    fine.clear([1, 2, 3, 4]);
    let before = top(&fine);
    fine.push_buf();
    fine.clear([9, 9, 9, 9]);
    fine.pop_buf();
    assert_eq!(top(&fine), before);
}

#[test]
fn fine2_blend_composes_the_top_layer_down() {
    let mut fine = Fine::new();
    let bg = [100, 100, 100, 255];
    let src = [0, 64, 0, 128];
    fine.clear(bg);
    fine.push_buf();
    fine.clear(src);
    fine.apply_blend(with(Compose::SrcAtop));
    fine.pop_buf();
    let out = top(&fine);
    let expected = [
        compose(Compose::SrcAtop, src[0], src[3], bg[0], bg[3], 255),
        compose(Compose::SrcAtop, src[1], src[3], bg[1], bg[3], 255),
        compose(Compose::SrcAtop, src[2], src[3], bg[2], bg[3], 255),
        compose(Compose::SrcAtop, src[3], src[3], bg[3], bg[3], 255),
    ];
    assert!(out.chunks(4).all(|p| p == expected));
}

#[test]
fn fine2_clip_fill_and_clip_strip() {
    let mut fine = Fine::new();
    let bg = [100, 100, 100, 255];
    let src = [0, 0, 128, 128];
    fine.clear(bg);
    fine.push_buf();
    fine.clear(src);
    fine.clip_fill(0, 2);
    let alphas = [255u8, 128, 64, 0, 0, 0, 0, 0];
    fine.clip_strip(8, 2, &alphas);
    fine.pop_buf();
    let out = top(&fine);
    let over = [
        src_over(bg[0], src[0], src[3]),
        src_over(bg[1], src[1], src[3]),
        src_over(bg[2], src[2], src[3]),
        src_over(bg[3], src[3], src[3]),
    ];
    assert_eq!(pixel(&out, 0, 0), over);
    assert_eq!(pixel(&out, 1, 3), over);
    assert_eq!(pixel(&out, 2, 0), bg);
    for p in 0..8usize {
        let m = alphas[p];
        let expected = [
            strip(bg[0], src[0], src[3], m),
            strip(bg[1], src[1], src[3], m),
            strip(bg[2], src[2], src[3], m),
            strip(bg[3], src[3], src[3], m),
        ];
        assert_eq!(pixel(&out, 8 + p / 4, p % 4), expected);
    }
}

#[test]
fn fine2_run_cmd_runs_every_command() {
    let mut fine = Fine::new();
    let alphas = [7u8, 7, 255, 255, 255, 255, 255, 255, 255, 255];
    fine.run_cmd(
        &Cmd::Fill(CmdFill { x: 0, width: 256, paint: Paint::Solid([10, 10, 10, 255]), blend_mode: None }),
        &alphas,
    );
    fine.run_cmd(&Cmd::PushBuf, &alphas);
    fine.run_cmd(
        &Cmd::Fill(CmdFill {
            x: 0,
            width: 4,
            paint: Paint::Solid([0, 0, 200, 255]),
            blend_mode: Some(with(Compose::Copy)),
        }),
        &alphas,
    );
    fine.run_cmd(
        &Cmd::AlphaFill(CmdAlphaFill {
            x: 8,
            width: 2,
            alpha_idx: 2,
            paint: Paint::Solid([200, 0, 0, 255]),
            blend_mode: None,
        }),
        &alphas,
    );
    fine.run_cmd(&Cmd::ClipFill(CmdClipFill { x: 0, width: 4 }), &alphas);
    fine.run_cmd(&Cmd::ClipStrip(CmdClipAlphaFill { x: 8, width: 2, alpha_idx: 2 }), &alphas);
    fine.run_cmd(&Cmd::Blend(with(Compose::Dest)), &alphas);
    fine.run_cmd(&Cmd::PopBuf, &alphas);
    let out = top(&fine);
    assert_eq!(pixel(&out, 0, 0), [0, 0, 200, 255]);
    assert_eq!(pixel(&out, 8, 0), [200, 0, 0, 255]);
    assert_eq!(pixel(&out, 20, 0), [10, 10, 10, 255]);
}

#[test]
fn fine2_default_blend_mode() {
    assert!(normal().is_default());
    assert!(!with(Compose::Copy).is_default());
    assert!(!BlendMode { mix: Mix::Multiply, compose: Compose::SrcOver }.is_default());
}

#[test]
fn fine2_plus_saturates() {
    let mut fine = Fine::new();
    fine.clear([200, 200, 200, 200]);
    fine.fill(0, 2, &Paint::Solid([200, 200, 200, 200]), with(Compose::Plus));
    let out = top(&fine);
    assert_eq!(pixel(&out, 0, 0), [255, 255, 255, 255]);
    fine.clear([10, 20, 30, 40]);
    fine.fill(0, 2, &Paint::Solid([1, 2, 3, 4]), with(Compose::Plus));
    let out = top(&fine);
    assert_eq!(pixel(&out, 1, 3), [11, 22, 33, 44]);
}
