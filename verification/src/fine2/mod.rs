//! The second fine rasterizer: kernels that composite whole vectors of
//! components at a time.

use vstd::prelude::*;

pub mod lanes;
pub mod lowp;
pub mod region;

use crate::fine::fill::src_over_channel;
use crate::div255::div_255_spec;
use crate::fine::strip::{strip_channel, strip_channel_sum};
use crate::fine::{copy_region, ColorChunks, ColorSource, RepeatColor};
use crate::fine2::region::{
    blend_at, blend_with_alphas_at, composite_shader_at, composite_shader_with_alphas_at,
    composite_solid_at, composite_solid_with_alphas_at, copy_solid_at,
};
use crate::fine2::lanes::{load_u8x32, splat_color_u8x32};
use crate::pack::{pack_args_ok, pack_cols, pack_covers, pack_rows, pixmap_index, tile_index};
use crate::fine2::lowp::compose::{compose_channel, Compose};
use crate::fine2::lowp::strip::strip_components;
use crate::fine2::lowp::{paired_components, source_alpha, source_component, U8Kernel};

verus! {

/// A scalar type in which a kernel stores color components.
pub trait Numeric: Copy {
    /// The value of a component that is fully off.
    const ZERO: Self;
    /// The value of a component that is fully on.
    const ONE: Self;
}

impl Numeric for u8 {
    const ZERO: Self = 0;
    const ONE: Self = 255;
}

/// A vector that a kernel composites in one step.
pub trait CompositeType<N: Numeric>: Copy {
    /// The number of components in the vector.
    const LENGTH: usize;

    /// Whether `slice` holds exactly one vector's worth of components.
    spec fn fits_slice(slice: Seq<N>) -> bool;

    /// Load the vector from `slice`.
    fn from_slice(slice: &[N]) -> Self
        requires
            Self::fits_slice(slice@),
    ;

    /// The vector that repeats `color` over all its pixels.
    fn from_color(color: [N; 4]) -> Self;
}

impl CompositeType<u8> for [u8; 32] {
    const LENGTH: usize = 32;

    open spec fn fits_slice(slice: Seq<u8>) -> bool {
        slice.len() == 32
    }

    fn from_slice(slice: &[u8]) -> (r: [u8; 32])
        ensures
            r@ == slice@,
    {
        load_u8x32(slice)
    }

    fn from_color(color: [u8; 4]) -> (r: [u8; 32])
        ensures
            forall|i: int| 0 <= i < 32 ==> r@[i] == color@[i % 4],
    {
        splat_color_u8x32(color)
    }
}

/// Copy the alpha of each pixel to all four of its components.
pub trait Splat4thExt {
    /// Copy the last component of each group of four to the whole group.
    fn splat_4th(self) -> Self;
}

impl Splat4thExt for [u8; 16] {
    fn splat_4th(self) -> (r: [u8; 16])
        ensures
            forall|i: int| 0 <= i < 16 ==> r@[i] == self@[(i / 4) * 4 + 3],
    {
        let a = self;
        let r = [
            a[3],
            a[3],
            a[3],
            a[3],
            a[7],
            a[7],
            a[7],
            a[7],
            a[11],
            a[11],
            a[11],
            a[11],
            a[15],
            a[15],
            a[15],
            a[15],
        ];
        assert forall|i: int| 0 <= i < 16 implies r@[i] == self@[(i / 4) * 4 + 3] by {
            assert(0 <= i < 4 || 4 <= i < 8 || 8 <= i < 12 || 12 <= i < 16);
        }
        r
    }
}

impl Splat4thExt for [u8; 32] {
    fn splat_4th(self) -> (r: [u8; 32])
        ensures
            forall|i: int| 0 <= i < 32 ==> r@[i] == self@[(i / 4) * 4 + 3],
    {
        let mut lo = [0u8; 16];
        let mut hi = [0u8; 16];
        let mut i: usize = 0;
        while i < 16
            invariant
                i <= 16,
                forall|j: int| 0 <= j < i ==> lo@[j] == self@[j] && hi@[j] == self@[j + 16],
            decreases 16 - i,
        {
            lo[i] = self[i];
            hi[i] = self[i + 16];
            i = i + 1;
        }
        let lo = lo.splat_4th();
        let hi = hi.splat_4th();
        let mut r = [0u8; 32];
        let mut i: usize = 0;
        while i < 16
            invariant
                i <= 16,
                forall|j: int| 0 <= j < 16 ==> lo@[j] == self@[(j / 4) * 4 + 3],
                forall|j: int| 0 <= j < 16 ==> hi@[j] == self@[(j / 4) * 4 + 3 + 16],
                forall|j: int| 0 <= j < i ==> r@[j] == lo@[j] && r@[j + 16] == hi@[j],
            decreases 16 - i,
        {
            r[i] = lo[i];
            r[i + 16] = hi[i];
            i = i + 1;
        }
        assert forall|j: int| 0 <= j < 32 implies r@[j] == self@[(j / 4) * 4 + 3] by {
            if j >= 16 {
                assert(r@[(j - 16) + 16] == hi@[j - 16]);
                assert(hi@[j - 16] == self@[((j - 16) / 4) * 4 + 3 + 16]);
                assert(((j - 16) / 4) * 4 + 3 + 16 == (j / 4) * 4 + 3);
            } else {
                assert(r@[j] == lo@[j]);
                assert(lo@[j] == self@[(j / 4) * 4 + 3]);
            }
        }
        r
    }
}

} // verus!

verus! {

/// The number of components in the scratch buffer of a wide tile.
pub const SCRATCH_BUF_SIZE: usize = 4096;

/// The number of components in one column of a tile.
pub const TILE_HEIGHT_COMPONENTS: usize = 16;

/// The color mixing functions. The 8-bit kernel composes without mixing; the
/// mixing function only decides whether a blend mode is the default one.
#[derive(Copy, Clone, Debug, PartialEq, Eq, Structural)]
pub enum Mix {
    /// Default attribute which specifies no mixing.
    Normal,
    /// Multiplies the source and destination.
    Multiply,
    /// The inverse of multiplying the inverses.
    Screen,
    /// Multiplies or screens, depending on the destination.
    Overlay,
    /// The darker of the source and the destination.
    Darken,
    /// The lighter of the source and the destination.
    Lighten,
    /// Brightens the destination to reflect the source.
    ColorDodge,
    /// Darkens the destination to reflect the source.
    ColorBurn,
    /// Multiplies or screens, depending on the source.
    HardLight,
    /// Darkens or lightens, depending on the source.
    SoftLight,
    /// The difference of the source and the destination.
    Difference,
    /// Like `Difference`, with lower contrast.
    Exclusion,
    /// The hue of the source with the saturation and luminosity of the destination.
    Hue,
    /// The saturation of the source with the hue and luminosity of the destination.
    Saturation,
    /// The hue and saturation of the source with the luminosity of the destination.
    Color,
    /// The luminosity of the source with the hue and saturation of the destination.
    Luminosity,
    /// Clips to the source.
    Clip,
}

/// A blend mode: a color mixing function and a layer composition function.
#[derive(Copy, Clone, Debug)]
pub struct BlendMode {
    /// The color mixing function.
    pub mix: Mix,
    /// The layer composition function.
    pub compose: Compose,
}

/// Whether `mode` is the default blend mode: normal mixing, source-over.
pub open spec fn is_default_blend(mode: BlendMode) -> bool {
    mode.mix == Mix::Normal && mode.compose == Compose::SrcOver
}

impl BlendMode {
    /// Whether this is the default blend mode: normal mixing, source-over.
    pub fn is_default(&self) -> (r: bool)
        ensures
            r == is_default_blend(*self),
    {
        self.mix == Mix::Normal && self.compose == Compose::SrcOver
    }
}

/// A paint whose colors are ready for compositing.
#[derive(Clone, Debug)]
pub enum Paint {
    /// A premultiplied RGBA8 color.
    Solid([u8; 4]),
    /// The premultiplied RGBA8 colors that a shader (a gradient, a blurred rounded
    /// rectangle) produced for the pixels being painted, column by column, and
    /// whether any of them is not opaque.
    Shaded { colors: Vec<u8>, has_opacities: bool },
}

/// Whether `paint` has a color for each of the `len` components it paints.
pub open spec fn paint_fits(paint: Paint, len: int) -> bool {
    match paint {
        Paint::Solid(_) => true,
        Paint::Shaded { colors, .. } => colors@.len() == len,
    }
}

/// Component `i` of the painted area `[start, start + len)` of `buf` after
/// filling it with `paint` in blend mode `mode`.
pub open spec fn fill_lane(buf: Seq<u8>, start: int, len: int, paint: Paint, mode: BlendMode, i: int) -> u8 {
    let bg = buf[start + i];
    let bg_a = buf[start + (i / 4) * 4 + 3];
    match paint {
        Paint::Solid(c) => if is_default_blend(mode) {
            if i < (len / 64) * 64 {
                if c@[3] == 255 {
                    c@[i % 4]
                } else {
                    (src_over_channel(bg as int, c@[i % 4] as int, c@[3] as int) % 256) as u8
                }
            } else {
                bg
            }
        } else if i < (len / 32) * 32 {
            compose_channel(mode.compose, c@[i % 4] as int, c@[3] as int, bg as int, bg_a as int, 255) as u8
        } else {
            bg
        },
        Paint::Shaded { colors, has_opacities } => if !has_opacities {
            colors@[i]
        } else if i < (len / 32) * 32 {
            if is_default_blend(mode) {
                (src_over_channel(bg as int, colors@[i] as int, colors@[(i / 4) * 4 + 3] as int)
                    % 256) as u8
            } else {
                compose_channel(
                    mode.compose,
                    colors@[i] as int,
                    colors@[(i / 4) * 4 + 3] as int,
                    bg as int,
                    bg_a as int,
                    255,
                ) as u8
            }
        } else {
            bg
        },
    }
}

/// `buf` after filling `[start, start + len)` with `paint` in blend mode `mode`.
pub open spec fn filled(buf: Seq<u8>, start: int, len: int, paint: Paint, mode: BlendMode) -> Seq<u8> {
    Seq::new(
        buf.len(),
        |k: int|
            if start <= k < start + len {
                fill_lane(buf, start, len, paint, mode, k - start)
            } else {
                buf[k]
            },
    )
}

/// The paint scratch buffer after painting `[start, start + len)` with `paint`:
/// shaded colors with opacities are put there first.
pub open spec fn paint_buf_after_fill(buf: Seq<u8>, start: int, len: int, paint: Paint) -> Seq<u8> {
    match paint {
        Paint::Solid(_) => buf,
        Paint::Shaded { colors, has_opacities } => if has_opacities {
            buf.subrange(0, start) + colors@ + buf.subrange(start + len, buf.len() as int)
        } else {
            buf
        },
    }
}

/// Component `i` of the colors of `paint` over a painted area.
pub open spec fn paint_component(paint: Paint, i: int) -> int {
    match paint {
        Paint::Solid(c) => c@[i % 4] as int,
        Paint::Shaded { colors, .. } => colors@[i] as int,
    }
}

/// The alpha of the pixel of component `i` of the colors of `paint`.
pub open spec fn paint_alpha(paint: Paint, i: int) -> int {
    match paint {
        Paint::Solid(c) => c@[3] as int,
        Paint::Shaded { colors, .. } => colors@[(i / 4) * 4 + 3] as int,
    }
}

/// Component `i` of the painted area `[start, start + len)` of `buf` after
/// painting it with `paint` in blend mode `mode`, each pixel weighted by its
/// coverage in `alphas`.
pub open spec fn strip_lane(
    buf: Seq<u8>,
    start: int,
    len: int,
    alphas: Seq<u8>,
    paint: Paint,
    mode: BlendMode,
    i: int,
) -> u8 {
    let bg = buf[start + i];
    if i < strip_components(len, alphas.len() as int) {
        if is_default_blend(mode) {
            strip_channel(
                bg as int,
                paint_component(paint, i),
                paint_alpha(paint, i),
                alphas[i / 4] as int,
            ) as u8
        } else {
            compose_channel(
                mode.compose,
                paint_component(paint, i),
                paint_alpha(paint, i),
                bg as int,
                buf[start + (i / 4) * 4 + 3] as int,
                alphas[i / 4] as int,
            ) as u8
        }
    } else {
        bg
    }
}

/// `buf` after painting `[start, start + len)` with `paint` in blend mode
/// `mode`, each pixel weighted by its coverage in `alphas`.
pub open spec fn stripped(
    buf: Seq<u8>,
    start: int,
    len: int,
    alphas: Seq<u8>,
    paint: Paint,
    mode: BlendMode,
) -> Seq<u8> {
    Seq::new(
        buf.len(),
        |k: int|
            if start <= k < start + len {
                strip_lane(buf, start, len, alphas, paint, mode, k - start)
            } else {
                buf[k]
            },
    )
}

/// Whether source-over with coverage stays within 16 bits before its division
/// by 255, on every painted component; other blend modes wrap and need nothing.
pub open spec fn strip_fits(
    buf: Seq<u8>,
    start: int,
    len: int,
    alphas: Seq<u8>,
    paint: Paint,
    mode: BlendMode,
) -> bool {
    is_default_blend(mode) ==> forall|i: int|
        0 <= i < strip_components(len, alphas.len() as int) ==> #[trigger] strip_channel_sum(
            buf[start + i] as int,
            paint_component(paint, i),
            paint_alpha(paint, i),
            alphas[i / 4] as int,
        ) < 65280
}

/// The paint scratch buffer after a strip over `[start, start + len)` with
/// `paint`: shaded colors are always put there first.
pub open spec fn paint_buf_after_strip(buf: Seq<u8>, start: int, len: int, paint: Paint) -> Seq<u8> {
    match paint {
        Paint::Solid(_) => buf,
        Paint::Shaded { colors, .. } => buf.subrange(0, start) + colors@ + buf.subrange(
            start + len,
            buf.len() as int,
        ),
    }
}

/// `buf` with `[start, start + len)` composited source-over with the colors
/// `src`, thirty-two components at a time; wraps to 8 bits.
pub open spec fn clip_filled(buf: Seq<u8>, start: int, len: int, src: Seq<u8>) -> Seq<u8> {
    Seq::new(
        buf.len(),
        |k: int|
            if start <= k < start + (len / 32) * 32 {
                (src_over_channel(
                    buf[k] as int,
                    src[k - start] as int,
                    src[((k - start) / 4) * 4 + 3] as int,
                ) % 256) as u8
            } else {
                buf[k]
            },
    )
}

/// `buf` with `[start, start + len)` composited source-over with the colors
/// `src`, each pixel weighted by its coverage in `alphas`.
pub open spec fn clip_stripped(
    buf: Seq<u8>,
    start: int,
    len: int,
    src: Seq<u8>,
    alphas: Seq<u8>,
) -> Seq<u8> {
    Seq::new(
        buf.len(),
        |k: int|
            if start <= k < start + strip_components(len, alphas.len() as int) {
                strip_channel(
                    buf[k] as int,
                    src[k - start] as int,
                    src[((k - start) / 4) * 4 + 3] as int,
                    alphas[(k - start) / 4] as int,
                ) as u8
            } else {
                buf[k]
            },
    )
}

/// Whether source-over with coverage of `src` onto `[start, start + len)` of
/// `buf` stays within 16 bits before its division by 255.
pub open spec fn clip_strip_fits(
    buf: Seq<u8>,
    start: int,
    len: int,
    src: Seq<u8>,
    alphas: Seq<u8>,
) -> bool {
    forall|i: int|
        0 <= i < strip_components(len, alphas.len() as int) ==> #[trigger] strip_channel_sum(
            buf[start + i] as int,
            src[i] as int,
            src[(i / 4) * 4 + 3] as int,
            alphas[i / 4] as int,
        ) < 65280
}

/// `buf` with `[start, start + len)` composed with the colors `src` by `mode`.
pub open spec fn blended(buf: Seq<u8>, start: int, len: int, src: Seq<u8>, mode: Compose) -> Seq<u8> {
    Seq::new(
        buf.len(),
        |k: int|
            if start <= k < start + (len / 32) * 32 {
                compose_channel(
                    mode,
                    src[k - start] as int,
                    src[((k - start) / 4) * 4 + 3] as int,
                    buf[k] as int,
                    buf[start + ((k - start) / 4) * 4 + 3] as int,
                    255,
                ) as u8
            } else {
                buf[k]
            },
    )
}

/// The stack of blend buffers of the fine rasterizer, the top one last.
pub struct Fine {
    wide_coords: (u16, u16),
    blend_buf: Vec<u8>,
    paint_buf: Vec<u8>,
}

impl Fine {
    /// The components of all blend buffers, the bottom one first.
    pub closed spec fn stack(&self) -> Seq<u8> {
        self.blend_buf@
    }

    /// The number of blend buffers.
    pub open spec fn depth(&self) -> int {
        self.stack().len() as int / SCRATCH_BUF_SIZE as int
    }

    /// The index in `stack()` of the first component of blend buffer `i`.
    pub open spec fn layer_start(&self, i: int) -> int {
        i * SCRATCH_BUF_SIZE
    }

    /// The scratch buffer into which shaded colors are written.
    pub closed spec fn paint(&self) -> Seq<u8> {
        self.paint_buf@
    }

    /// The coordinates of the wide tile being rendered.
    pub closed spec fn coords(&self) -> (u16, u16) {
        self.wide_coords
    }

    /// Every blend buffer, and the paint buffer, holds one wide tile.
    pub open spec fn wf(&self) -> bool {
        &&& self.stack().len() as int % SCRATCH_BUF_SIZE as int == 0
        &&& self.paint().len() == SCRATCH_BUF_SIZE
    }

    /// A fine rasterizer with one blend buffer, all components zero.
    pub fn new() -> (r: Self)
        ensures
            r.wf(),
            r.stack() == Seq::new(SCRATCH_BUF_SIZE as nat, |k: int| 0u8),
            r.paint() == Seq::new(SCRATCH_BUF_SIZE as nat, |k: int| 0u8),
            r.coords() == (0u16, 0u16),
    {
        let r = Fine {
            wide_coords: (0, 0),
            blend_buf: vec![0u8; SCRATCH_BUF_SIZE],
            paint_buf: vec![0u8; SCRATCH_BUF_SIZE],
        };
        assert(r.stack() =~= Seq::new(SCRATCH_BUF_SIZE as nat, |k: int| 0u8));
        assert(r.paint() =~= Seq::new(SCRATCH_BUF_SIZE as nat, |k: int| 0u8));
        r
    }

    /// Set the coordinates of the wide tile being rendered.
    pub fn set_coords(&mut self, x: u16, y: u16)
        ensures
            final(self).coords() == (x, y),
            final(self).stack() == old(self).stack(),
            final(self).paint() == old(self).paint(),
            final(self).wf() == old(self).wf(),
    {
        self.wide_coords = (x, y);
    }
}

} // verus!

verus! {

impl Fine {
    /// The index in `stack()` of the first component of the top blend buffer.
    pub open spec fn top(&self) -> int {
        self.layer_start(self.depth() - 1)
    }

    /// Fill the top blend buffer with the premultiplied color `color`.
    pub fn clear(&mut self, color: [u8; 4])
        requires
            old(self).wf(),
            old(self).depth() >= 1,
        ensures
            final(self).wf(),
            final(self).stack() == Seq::new(
                old(self).stack().len(),
                |k: int|
                    if old(self).top() <= k {
                        color@[(k - old(self).top()) % 4]
                    } else {
                        old(self).stack()[k]
                    },
            ),
            final(self).paint() == old(self).paint(),
            final(self).coords() == old(self).coords(),
    {
        let top = self.blend_buf.len() - SCRATCH_BUF_SIZE;
        assert(top == old(self).top());
        copy_solid_at(self.blend_buf.as_mut_slice(), top, SCRATCH_BUF_SIZE, color);
        assert(self.blend_buf@ =~= Seq::new(
            old(self).stack().len(),
            |k: int|
                if old(self).top() <= k {
                    color@[(k - old(self).top()) % 4]
                } else {
                    old(self).stack()[k]
                },
        ));
    }

    /// Fill `width` whole columns of the top blend buffer, starting at column
    /// `x`, with `paint` in blend mode `mode`.
    pub fn fill(&mut self, x: usize, width: usize, paint: &Paint, mode: BlendMode)
        requires
            old(self).wf(),
            old(self).depth() >= 1,
            x * TILE_HEIGHT_COMPONENTS + TILE_HEIGHT_COMPONENTS * width <= SCRATCH_BUF_SIZE,
            paint_fits(*paint, TILE_HEIGHT_COMPONENTS * width),
        ensures
            final(self).wf(),
            final(self).stack() == filled(
                old(self).stack(),
                old(self).top() + x * TILE_HEIGHT_COMPONENTS,
                TILE_HEIGHT_COMPONENTS * width,
                *paint,
                mode,
            ),
            final(self).paint() == paint_buf_after_fill(
                old(self).paint(),
                x * TILE_HEIGHT_COMPONENTS,
                TILE_HEIGHT_COMPONENTS * width,
                *paint,
            ),
            final(self).coords() == old(self).coords(),
    {
        let top = self.blend_buf.len() - SCRATCH_BUF_SIZE;
        let offset = x * TILE_HEIGHT_COMPONENTS;
        let start = top + offset;
        let len = TILE_HEIGHT_COMPONENTS * width;
        match paint {
            Paint::Solid(_) => {
                fill_solid(self.blend_buf.as_mut_slice(), start, len, paint, mode);
            },
            Paint::Shaded { colors, has_opacities } => {
                if *has_opacities {
                    copy_region(&mut self.paint_buf, offset, colors.as_slice());
                    let shaded = &self.paint_buf.as_slice()[offset..offset + len];
                    assert(shaded@ =~= colors@);
                    fill_shaded(self.blend_buf.as_mut_slice(), start, len, paint, shaded, mode);
                } else {
                    // Opaque shaded colors replace whatever was there.
                    let ghost old_stack = self.blend_buf@;
                    copy_region(&mut self.blend_buf, start, colors.as_slice());
                    assert(self.blend_buf@ =~= filled(old_stack, start as int, len as int, *paint, mode));
                }
            },
        }
        assert(self.paint_buf@ =~= paint_buf_after_fill(
            old(self).paint(),
            offset as int,
            len as int,
            *paint,
        ));
    }
}

/// Fill `buf[start..start + len]` with the solid color of `paint`.
#[verifier::spinoff_prover]
fn fill_solid(buf: &mut [u8], start: usize, len: usize, paint: &Paint, mode: BlendMode)
    requires
        start + len <= old(buf)@.len(),
        paint is Solid,
    ensures
        final(buf)@ == filled(old(buf)@, start as int, len as int, *paint, mode),
{
    let ghost old_buf = buf@;
    let color = match paint {
        Paint::Solid(c) => *c,
        Paint::Shaded { .. } => [0u8; 4],
    };
    let default_blend = mode.is_default();
    if color[3] == 255 && default_blend {
        // An opaque color replaces whatever was there.
        copy_solid_at(buf, start, len, color);
    } else if default_blend {
        composite_solid_at(buf, start, len, color);
    } else {
        let src = RepeatColor(color);
        blend_at(buf, start, len, &src, mode.compose);
    }
    assert(buf@ =~= filled(old_buf, start as int, len as int, *paint, mode));
}

/// Composite the shaded colors `shaded` of `paint` onto `buf[start..start + len]`.
#[verifier::spinoff_prover]
fn fill_shaded(
    buf: &mut [u8],
    start: usize,
    len: usize,
    paint: &Paint,
    shaded: &[u8],
    mode: BlendMode,
)
    requires
        start + len <= old(buf)@.len(),
        paint is Shaded,
        paint->has_opacities,
        paint->colors@ == shaded@,
        shaded@.len() == len,
        len % 4 == 0,
    ensures
        final(buf)@ == filled(old(buf)@, start as int, len as int, *paint, mode),
{
    let ghost old_buf = buf@;
    if mode.is_default() {
        composite_shader_at(buf, start, len, shaded);
    } else {
        let src = ColorChunks(shaded);
        blend_at(buf, start, len, &src, mode.compose);
        assert forall|k: int| 0 <= k < len implies source_component(src, k) == shaded@[k]
            && source_alpha(src, k) == shaded@[(k / 4) * 4 + 3] by {
            assert((k / 4) * 4 + 4 <= len);
            assert((k / 4) * 4 + k % 4 == k);
            assert(src.color(k / 4)[k % 4] == shaded@[(k / 4) * 4 + k % 4]);
        }
    }
    assert(buf@ =~= filled(old_buf, start as int, len as int, *paint, mode));
}

impl Fine {
    /// Paint `width` columns of the top blend buffer, starting at column `x`,
    /// with `paint` in blend mode `mode`, each pixel weighted by its coverage in
    /// `alphas` (one value per pixel, column by column).
    pub fn strip(&mut self, x: usize, width: usize, alphas: &[u8], paint: &Paint, mode: BlendMode)
        requires
            old(self).wf(),
            old(self).depth() >= 1,
            alphas@.len() >= width,
            x * TILE_HEIGHT_COMPONENTS + TILE_HEIGHT_COMPONENTS * width <= SCRATCH_BUF_SIZE,
            paint_fits(*paint, TILE_HEIGHT_COMPONENTS * width),
            strip_fits(
                old(self).stack(),
                old(self).top() + x * TILE_HEIGHT_COMPONENTS,
                TILE_HEIGHT_COMPONENTS * width,
                alphas@,
                *paint,
                mode,
            ),
        ensures
            final(self).wf(),
            final(self).stack() == stripped(
                old(self).stack(),
                old(self).top() + x * TILE_HEIGHT_COMPONENTS,
                TILE_HEIGHT_COMPONENTS * width,
                alphas@,
                *paint,
                mode,
            ),
            final(self).paint() == paint_buf_after_strip(
                old(self).paint(),
                x * TILE_HEIGHT_COMPONENTS,
                TILE_HEIGHT_COMPONENTS * width,
                *paint,
            ),
            final(self).coords() == old(self).coords(),
    {
        let top = self.blend_buf.len() - SCRATCH_BUF_SIZE;
        let offset = x * TILE_HEIGHT_COMPONENTS;
        let start = top + offset;
        let len = TILE_HEIGHT_COMPONENTS * width;
        match paint {
            Paint::Solid(_) => {
                strip_solid(self.blend_buf.as_mut_slice(), start, len, alphas, paint, mode);
            },
            Paint::Shaded { colors, .. } => {
                copy_region(&mut self.paint_buf, offset, colors.as_slice());
                let shaded = &self.paint_buf.as_slice()[offset..offset + len];
                assert(shaded@ =~= colors@);
                strip_shaded(self.blend_buf.as_mut_slice(), start, len, alphas, paint, shaded, mode);
            },
        }
        assert(self.paint_buf@ =~= paint_buf_after_strip(
            old(self).paint(),
            offset as int,
            len as int,
            *paint,
        ));
    }
}

/// Paint the solid color of `paint` over `buf[start..start + len]` with coverage `alphas`.
#[verifier::spinoff_prover]
fn strip_solid(buf: &mut [u8], start: usize, len: usize, alphas: &[u8], paint: &Paint, mode: BlendMode)
    requires
        start + len <= old(buf)@.len(),
        paint is Solid,
        strip_fits(old(buf)@, start as int, len as int, alphas@, *paint, mode),
    ensures
        final(buf)@ == stripped(old(buf)@, start as int, len as int, alphas@, *paint, mode),
{
    let ghost old_buf = buf@;
    let color = match paint {
        Paint::Solid(c) => *c,
        Paint::Shaded { .. } => [0u8; 4],
    };
    if mode.is_default() {
        assert forall|i: int| 0 <= i < strip_components(len as int, alphas@.len() as int) implies #[trigger] strip_channel_sum(
            old_buf[start + i] as int,
            color@[i % 4] as int,
            color@[3] as int,
            alphas@[i / 4] as int,
        ) < 65280 by {
            assert(strip_channel_sum(
                old_buf[start + i] as int,
                paint_component(*paint, i),
                paint_alpha(*paint, i),
                alphas@[i / 4] as int,
            ) < 65280);
        }
        composite_solid_with_alphas_at(buf, start, len, color, alphas);
    } else {
        let src = RepeatColor(color);
        blend_with_alphas_at(buf, start, len, &src, mode.compose, alphas);
    }
    assert(buf@ =~= stripped(old_buf, start as int, len as int, alphas@, *paint, mode));
}

/// Paint the shaded colors `shaded` of `paint` over `buf[start..start + len]`
/// with coverage `alphas`.
#[verifier::spinoff_prover]
fn strip_shaded(
    buf: &mut [u8],
    start: usize,
    len: usize,
    alphas: &[u8],
    paint: &Paint,
    shaded: &[u8],
    mode: BlendMode,
)
    requires
        start + len <= old(buf)@.len(),
        paint is Shaded,
        paint->colors@ == shaded@,
        shaded@.len() == len,
        len % 4 == 0,
        strip_fits(old(buf)@, start as int, len as int, alphas@, *paint, mode),
    ensures
        final(buf)@ == stripped(old(buf)@, start as int, len as int, alphas@, *paint, mode),
{
    let ghost old_buf = buf@;
    assert(strip_components(paired_components(len as int, len as int), alphas@.len() as int)
        == strip_components(len as int, alphas@.len() as int));
    if mode.is_default() {
        assert forall|i: int| 0 <= i < strip_components(paired_components(len as int, len as int), alphas@.len() as int) implies #[trigger] strip_channel_sum(
            old_buf[start + i] as int,
            shaded@[i] as int,
            shaded@[(i / 4) * 4 + 3] as int,
            alphas@[i / 4] as int,
        ) < 65280 by {
            assert(strip_channel_sum(
                old_buf[start + i] as int,
                paint_component(*paint, i),
                paint_alpha(*paint, i),
                alphas@[i / 4] as int,
            ) < 65280);
        }
        composite_shader_with_alphas_at(buf, start, len, shaded, alphas);
    } else {
        let src = ColorChunks(shaded);
        assert(strip_components(len as int, alphas@.len() as int) <= len);
        blend_with_alphas_at(buf, start, len, &src, mode.compose, alphas);
        assert forall|k: int| 0 <= k < len implies source_component(src, k) == shaded@[k]
            && source_alpha(src, k) == shaded@[(k / 4) * 4 + 3] by {
            assert((k / 4) * 4 + 4 <= len);
            assert((k / 4) * 4 + k % 4 == k);
            assert(src.color(k / 4)[k % 4] == shaded@[(k / 4) * 4 + k % 4]);
        }
    }
    assert(buf@ =~= stripped(old_buf, start as int, len as int, alphas@, *paint, mode));
}

impl Fine {
    /// Push a new blend buffer, all components zero, onto the stack.
    pub fn push_buf(&mut self)
        requires
            old(self).wf(),
        ensures
            final(self).wf(),
            final(self).stack() == old(self).stack() + Seq::new(SCRATCH_BUF_SIZE as nat, |k: int| 0u8),
            final(self).paint() == old(self).paint(),
            final(self).coords() == old(self).coords(),
    {
        let ghost old_stack = self.blend_buf@;
        let mut i: usize = 0;
        while i < SCRATCH_BUF_SIZE
            invariant
                i <= SCRATCH_BUF_SIZE,
                self.blend_buf@ == old_stack + Seq::new(i as nat, |k: int| 0u8),
                self.paint_buf@ == old(self).paint_buf@,
                self.wide_coords == old(self).wide_coords,
            decreases SCRATCH_BUF_SIZE - i,
        {
            self.blend_buf.push(0);
            i = i + 1;
            assert(self.blend_buf@ =~= old_stack + Seq::new(i as nat, |k: int| 0u8));
        }
        assert(self.blend_buf@.len() as int % SCRATCH_BUF_SIZE as int == 0) by {
            assert(self.blend_buf@.len() == old_stack.len() + SCRATCH_BUF_SIZE);
        }
    }

    /// Pop the top blend buffer off the stack; an empty stack stays empty.
    pub fn pop_buf(&mut self)
        requires
            old(self).wf(),
        ensures
            final(self).wf(),
            old(self).depth() >= 1 ==> final(self).stack() == old(self).stack().subrange(
                0,
                old(self).top(),
            ),
            old(self).depth() == 0 ==> final(self).stack() == old(self).stack(),
            final(self).paint() == old(self).paint(),
            final(self).coords() == old(self).coords(),
    {
        let len = self.blend_buf.len();
        if len >= SCRATCH_BUF_SIZE {
            self.blend_buf.truncate(len - SCRATCH_BUF_SIZE);
        }
    }

    /// Compose the top blend buffer onto the one below it with `mode`.
    pub fn apply_blend(&mut self, mode: BlendMode)
        requires
            old(self).wf(),
            old(self).depth() >= 2,
        ensures
            final(self).wf(),
            final(self).stack() == blended(
                old(self).stack(),
                old(self).top() - SCRATCH_BUF_SIZE,
                SCRATCH_BUF_SIZE as int,
                old(self).stack().subrange(old(self).top(), old(self).top() + SCRATCH_BUF_SIZE),
                mode.compose,
            ),
            final(self).paint() == old(self).paint(),
            final(self).coords() == old(self).coords(),
    {
        let ghost old_stack = self.blend_buf@;
        let top = self.blend_buf.len() - SCRATCH_BUF_SIZE;
        let target = top - SCRATCH_BUF_SIZE;
        let (lower, upper) = self.blend_buf.as_mut_slice().split_at_mut(top);
        let ghost old_lower = lower@;
        let ghost src_seq = upper@;
        let src = ColorChunks(&*upper);
        blend_at(lower, target, SCRATCH_BUF_SIZE, &src, mode.compose);
        let ghost new_lower = lower@;
        proof {
            assert forall|k: int| 0 <= k < SCRATCH_BUF_SIZE implies source_component(src, k)
                == src_seq[k] && source_alpha(src, k) == src_seq[(k / 4) * 4 + 3] by {
                assert((k / 4) * 4 + 4 <= SCRATCH_BUF_SIZE);
                assert((k / 4) * 4 + k % 4 == k);
                assert(src.color(k / 4)[k % 4] == src_seq[(k / 4) * 4 + k % 4]);
            }
            assert(old_lower =~= old_stack.subrange(0, top as int));
            assert(src_seq =~= old_stack.subrange(top as int, old_stack.len() as int));
        }
        assert(self.blend_buf@ =~= new_lower + src_seq);
        assert(self.blend_buf@ =~= blended(
            old_stack,
            target as int,
            SCRATCH_BUF_SIZE as int,
            old_stack.subrange(top as int, top + SCRATCH_BUF_SIZE),
            mode.compose,
        ));
    }
}

impl Fine {
    /// The components `[x * 16, x * 16 + 16 * width)` of the top blend buffer.
    pub open spec fn top_columns(&self, x: int, width: int) -> Seq<u8> {
        self.stack().subrange(
            self.top() + x * TILE_HEIGHT_COMPONENTS,
            self.top() + x * TILE_HEIGHT_COMPONENTS + TILE_HEIGHT_COMPONENTS * width,
        )
    }

    /// Composite `width` columns of the top blend buffer, starting at column
    /// `x`, source-over onto the same columns of the buffer below it.
    pub fn clip_fill(&mut self, x: usize, width: usize)
        requires
            old(self).wf(),
            old(self).depth() >= 2,
            x * TILE_HEIGHT_COMPONENTS + TILE_HEIGHT_COMPONENTS * width <= SCRATCH_BUF_SIZE,
        ensures
            final(self).wf(),
            final(self).stack() == clip_filled(
                old(self).stack(),
                old(self).top() - SCRATCH_BUF_SIZE + x * TILE_HEIGHT_COMPONENTS,
                TILE_HEIGHT_COMPONENTS * width,
                old(self).top_columns(x as int, width as int),
            ),
            final(self).paint() == old(self).paint(),
            final(self).coords() == old(self).coords(),
    {
        let ghost old_stack = self.blend_buf@;
        let top = self.blend_buf.len() - SCRATCH_BUF_SIZE;
        let offset = x * TILE_HEIGHT_COMPONENTS;
        let len = TILE_HEIGHT_COMPONENTS * width;
        let target = top - SCRATCH_BUF_SIZE + offset;
        let (lower, upper) = self.blend_buf.as_mut_slice().split_at_mut(top);
        let ghost old_lower = lower@;
        let ghost upper_seq = upper@;
        let src = &upper[offset..offset + len];
        composite_shader_at(lower, target, len, src);
        let ghost new_lower = lower@;
        proof {
            assert(old_lower =~= old_stack.subrange(0, top as int));
            assert(upper_seq =~= old_stack.subrange(top as int, old_stack.len() as int));
            assert(src@ =~= old(self).top_columns(x as int, width as int));
        }
        assert(self.blend_buf@ =~= new_lower + upper_seq);
        assert(self.blend_buf@ =~= clip_filled(
            old_stack,
            target as int,
            len as int,
            old(self).top_columns(x as int, width as int),
        ));
    }

    /// Composite `width` columns of the top blend buffer, starting at column
    /// `x`, source-over onto the same columns of the buffer below it, each
    /// pixel weighted by its coverage in `alphas`.
    pub fn clip_strip(&mut self, x: usize, width: usize, alphas: &[u8])
        requires
            old(self).wf(),
            old(self).depth() >= 2,
            x * TILE_HEIGHT_COMPONENTS + TILE_HEIGHT_COMPONENTS * width <= SCRATCH_BUF_SIZE,
            clip_strip_fits(
                old(self).stack(),
                old(self).top() - SCRATCH_BUF_SIZE + x * TILE_HEIGHT_COMPONENTS,
                TILE_HEIGHT_COMPONENTS * width,
                old(self).top_columns(x as int, width as int),
                alphas@,
            ),
        ensures
            final(self).wf(),
            final(self).stack() == clip_stripped(
                old(self).stack(),
                old(self).top() - SCRATCH_BUF_SIZE + x * TILE_HEIGHT_COMPONENTS,
                TILE_HEIGHT_COMPONENTS * width,
                old(self).top_columns(x as int, width as int),
                alphas@,
            ),
            final(self).paint() == old(self).paint(),
            final(self).coords() == old(self).coords(),
    {
        let ghost old_stack = self.blend_buf@;
        let top = self.blend_buf.len() - SCRATCH_BUF_SIZE;
        let offset = x * TILE_HEIGHT_COMPONENTS;
        let len = TILE_HEIGHT_COMPONENTS * width;
        let target = top - SCRATCH_BUF_SIZE + offset;
        let ghost cols = old(self).top_columns(x as int, width as int);
        let (lower, upper) = self.blend_buf.as_mut_slice().split_at_mut(top);
        let ghost old_lower = lower@;
        let ghost upper_seq = upper@;
        let src = &upper[offset..offset + len];
        proof {
            assert(old_lower =~= old_stack.subrange(0, top as int));
            assert(upper_seq =~= old_stack.subrange(top as int, old_stack.len() as int));
            assert(src@ =~= cols);
            assert(strip_components(paired_components(len as int, len as int), alphas@.len() as int)
                == strip_components(len as int, alphas@.len() as int));
            assert forall|i: int| 0 <= i < strip_components(paired_components(len as int, len as int), alphas@.len() as int) implies #[trigger] strip_channel_sum(
                old_lower[target + i] as int,
                src@[i] as int,
                src@[(i / 4) * 4 + 3] as int,
                alphas@[i / 4] as int,
            ) < 65280 by {
                assert(strip_channel_sum(
                    old_stack[target + i] as int,
                    cols[i] as int,
                    cols[(i / 4) * 4 + 3] as int,
                    alphas@[i / 4] as int,
                ) < 65280);
            }
        }
        composite_shader_with_alphas_at(lower, target, len, src, alphas);
        let ghost new_lower = lower@;
        assert(self.blend_buf@ =~= new_lower + upper_seq);
        assert(self.blend_buf@ =~= clip_stripped(old_stack, target as int, len as int, cols, alphas@));
    }
}

/// A fill of whole columns of a wide tile.
#[derive(Clone, Debug)]
pub struct CmdFill {
    /// The first column.
    pub x: u16,
    /// The number of columns.
    pub width: u16,
    /// The paint.
    pub paint: Paint,
    /// The blend mode, if not the default one.
    pub blend_mode: Option<BlendMode>,
}

/// A fill of columns of a wide tile, each pixel weighted by its coverage.
#[derive(Clone, Debug)]
pub struct CmdAlphaFill {
    /// The first column.
    pub x: u16,
    /// The number of columns.
    pub width: u16,
    /// The index of the first coverage value in the alpha buffer.
    pub alpha_idx: usize,
    /// The paint.
    pub paint: Paint,
    /// The blend mode, if not the default one.
    pub blend_mode: Option<BlendMode>,
}

/// A clip over whole columns of a wide tile.
#[derive(Clone, Copy, Debug)]
pub struct CmdClipFill {
    /// The first column.
    pub x: u16,
    /// The number of columns.
    pub width: u16,
}

/// A clip over columns of a wide tile, each pixel weighted by its coverage.
#[derive(Clone, Copy, Debug)]
pub struct CmdClipAlphaFill {
    /// The first column.
    pub x: u16,
    /// The number of columns.
    pub width: u16,
    /// The index of the first coverage value in the alpha buffer.
    pub alpha_idx: usize,
}

/// A command of a wide tile.
#[derive(Clone, Debug)]
pub enum Cmd {
    /// Fill whole columns.
    Fill(CmdFill),
    /// Fill columns with coverage.
    AlphaFill(CmdAlphaFill),
    /// Push a new blend buffer.
    PushBuf,
    /// Pop the top blend buffer.
    PopBuf,
    /// Clip whole columns of the top buffer onto the one below.
    ClipFill(CmdClipFill),
    /// Clip columns with coverage of the top buffer onto the one below.
    ClipStrip(CmdClipAlphaFill),
    /// Compose the top buffer onto the one below.
    Blend(BlendMode),
}

/// The blend mode `mode`, or the default one (normal, source-over) if none.
pub open spec fn mode_or_default(mode: Option<BlendMode>) -> BlendMode {
    match mode {
        Some(m) => m,
        None => BlendMode { mix: Mix::Normal, compose: Compose::SrcOver },
    }
}

/// The blend mode `mode`, or the default one (normal, source-over) if none.
pub fn blend_mode_or_default(mode: Option<BlendMode>) -> (r: BlendMode)
    ensures
        r == mode_or_default(mode),
{
    match mode {
        Some(m) => m,
        None => BlendMode { mix: Mix::Normal, compose: Compose::SrcOver },
    }
}

impl Fine {
    /// Whether `cmd` can run on this rasterizer, the alpha buffer being `alphas`.
    pub open spec fn can_run(&self, cmd: Cmd, alphas: Seq<u8>) -> bool {
        match cmd {
            Cmd::Fill(f) => {
                &&& self.depth() >= 1
                &&& f.x * TILE_HEIGHT_COMPONENTS + TILE_HEIGHT_COMPONENTS * f.width
                    <= SCRATCH_BUF_SIZE
                &&& paint_fits(f.paint, TILE_HEIGHT_COMPONENTS * f.width)
            },
            Cmd::AlphaFill(a) => {
                &&& self.depth() >= 1
                &&& a.alpha_idx <= alphas.len()
                &&& alphas.len() - a.alpha_idx >= a.width
                &&& a.x * TILE_HEIGHT_COMPONENTS + TILE_HEIGHT_COMPONENTS * a.width
                    <= SCRATCH_BUF_SIZE
                &&& paint_fits(a.paint, TILE_HEIGHT_COMPONENTS * a.width)
                &&& strip_fits(
                    self.stack(),
                    self.top() + a.x * TILE_HEIGHT_COMPONENTS,
                    TILE_HEIGHT_COMPONENTS * a.width,
                    alphas.subrange(a.alpha_idx as int, alphas.len() as int),
                    a.paint,
                    mode_or_default(a.blend_mode),
                )
            },
            Cmd::PushBuf => true,
            Cmd::PopBuf => true,
            Cmd::ClipFill(c) => {
                &&& self.depth() >= 2
                &&& c.x * TILE_HEIGHT_COMPONENTS + TILE_HEIGHT_COMPONENTS * c.width
                    <= SCRATCH_BUF_SIZE
            },
            Cmd::ClipStrip(c) => {
                &&& self.depth() >= 2
                &&& c.alpha_idx <= alphas.len()
                &&& c.x * TILE_HEIGHT_COMPONENTS + TILE_HEIGHT_COMPONENTS * c.width
                    <= SCRATCH_BUF_SIZE
                &&& clip_strip_fits(
                    self.stack(),
                    self.top() - SCRATCH_BUF_SIZE + c.x * TILE_HEIGHT_COMPONENTS,
                    TILE_HEIGHT_COMPONENTS * c.width,
                    self.top_columns(c.x as int, c.width as int),
                    alphas.subrange(c.alpha_idx as int, alphas.len() as int),
                )
            },
            Cmd::Blend(_) => self.depth() >= 2,
        }
    }

    /// The blend buffers after running `cmd`, the alpha buffer being `alphas`.
    pub open spec fn stack_after(&self, cmd: Cmd, alphas: Seq<u8>) -> Seq<u8> {
        match cmd {
            Cmd::Fill(f) => filled(
                self.stack(),
                self.top() + f.x * TILE_HEIGHT_COMPONENTS,
                TILE_HEIGHT_COMPONENTS * f.width,
                f.paint,
                mode_or_default(f.blend_mode),
            ),
            Cmd::AlphaFill(a) => stripped(
                self.stack(),
                self.top() + a.x * TILE_HEIGHT_COMPONENTS,
                TILE_HEIGHT_COMPONENTS * a.width,
                alphas.subrange(a.alpha_idx as int, alphas.len() as int),
                a.paint,
                mode_or_default(a.blend_mode),
            ),
            Cmd::PushBuf => self.stack() + Seq::new(SCRATCH_BUF_SIZE as nat, |k: int| 0u8),
            Cmd::PopBuf => if self.depth() >= 1 {
                self.stack().subrange(0, self.top())
            } else {
                self.stack()
            },
            Cmd::ClipFill(c) => clip_filled(
                self.stack(),
                self.top() - SCRATCH_BUF_SIZE + c.x * TILE_HEIGHT_COMPONENTS,
                TILE_HEIGHT_COMPONENTS * c.width,
                self.top_columns(c.x as int, c.width as int),
            ),
            Cmd::ClipStrip(c) => clip_stripped(
                self.stack(),
                self.top() - SCRATCH_BUF_SIZE + c.x * TILE_HEIGHT_COMPONENTS,
                TILE_HEIGHT_COMPONENTS * c.width,
                self.top_columns(c.x as int, c.width as int),
                alphas.subrange(c.alpha_idx as int, alphas.len() as int),
            ),
            Cmd::Blend(m) => blended(
                self.stack(),
                self.top() - SCRATCH_BUF_SIZE,
                SCRATCH_BUF_SIZE as int,
                self.stack().subrange(self.top(), self.top() + SCRATCH_BUF_SIZE),
                m.compose,
            ),
        }
    }

    /// The paint scratch buffer after running `cmd`.
    pub open spec fn paint_after(&self, cmd: Cmd) -> Seq<u8> {
        match cmd {
            Cmd::Fill(f) => paint_buf_after_fill(
                self.paint(),
                f.x * TILE_HEIGHT_COMPONENTS,
                TILE_HEIGHT_COMPONENTS * f.width,
                f.paint,
            ),
            Cmd::AlphaFill(a) => paint_buf_after_strip(
                self.paint(),
                a.x * TILE_HEIGHT_COMPONENTS,
                TILE_HEIGHT_COMPONENTS * a.width,
                a.paint,
            ),
            _ => self.paint(),
        }
    }

    /// Run one command of the wide tile; `alphas` holds the coverage of all strips.
    pub fn run_cmd(&mut self, cmd: &Cmd, alphas: &[u8])
        requires
            old(self).wf(),
            old(self).can_run(*cmd, alphas@),
        ensures
            final(self).wf(),
            final(self).stack() == old(self).stack_after(*cmd, alphas@),
            final(self).paint() == old(self).paint_after(*cmd),
            final(self).coords() == old(self).coords(),
    {
        match cmd {
            Cmd::Fill(f) => {
                let mode = blend_mode_or_default(f.blend_mode);
                self.fill(f.x as usize, f.width as usize, &f.paint, mode);
            },
            Cmd::AlphaFill(a) => {
                let mode = blend_mode_or_default(a.blend_mode);
                let a_slice = &alphas[a.alpha_idx..alphas.len()];
                self.strip(a.x as usize, a.width as usize, a_slice, &a.paint, mode);
            },
            Cmd::PushBuf => {
                self.push_buf();
            },
            Cmd::PopBuf => {
                self.pop_buf();
            },
            Cmd::ClipFill(c) => {
                self.clip_fill(c.x as usize, c.width as usize);
            },
            Cmd::ClipStrip(c) => {
                let a_slice = &alphas[c.alpha_idx..alphas.len()];
                self.clip_strip(c.x as usize, c.width as usize, a_slice);
            },
            Cmd::Blend(m) => {
                self.apply_blend(*m);
            },
        }
    }
}

impl Fine {
    /// Pack the top blend buffer into the pixmap `out` of `width` by `height`
    /// pixels, at the wide tile whose coordinates were set last.
    pub fn pack(&self, out: &mut [u8], width: usize, height: usize)
        requires
            self.wf(),
            self.depth() >= 1,
            pack_args_ok(
                old(out)@.len() as int,
                SCRATCH_BUF_SIZE as int,
                self.coords().0 as int,
                self.coords().1 as int,
                width as int,
                height as int,
            ),
        ensures
            final(out)@.len() == old(out)@.len(),
            forall|i: int, j: int, c: int|
                0 <= i < pack_cols(self.coords().0 as int, width as int) && 0 <= j < pack_rows(
                    self.coords().1 as int,
                    height as int,
                ) && 0 <= c < 4 ==> #[trigger] final(out)@[pixmap_index(
                    self.coords().0 as int,
                    self.coords().1 as int,
                    width as int,
                    i,
                    j,
                    c,
                )] == self.stack()[self.top() + tile_index(i, j, c)],
            forall|k: int|
                0 <= k < old(out)@.len() && !pack_covers(
                    k,
                    self.coords().0 as int,
                    self.coords().1 as int,
                    width as int,
                    height as int,
                ) ==> final(out)@[k] == old(out)@[k],
    {
        let top = self.blend_buf.len() - SCRATCH_BUF_SIZE;
        let layer = &self.blend_buf.as_slice()[top..top + SCRATCH_BUF_SIZE];
        U8Kernel::pack(
            out,
            layer,
            self.wide_coords.0 as usize,
            self.wide_coords.1 as usize,
            width,
            height,
        );
    }
}

/// Popping the blend buffer that a push made gives back the stack from before
/// the push.
pub proof fn lemma_pop_undoes_push(a: Fine, b: Fine, c: Fine, alphas: Seq<u8>)
    requires
        a.wf(),
        b.stack() == a.stack_after(Cmd::PushBuf, alphas),
        c.stack() == b.stack_after(Cmd::PopBuf, alphas),
    ensures
        c.stack() == a.stack(),
{
    let n = a.stack().len() as int;
    assert(b.stack().len() == n + SCRATCH_BUF_SIZE);
    assert(n % 4096 == 0);
    assert(b.depth() == n / 4096 + 1);
    assert(b.top() == n);
    assert(c.stack() =~= a.stack());
}

/// A fully transparent blend buffer composed source-over onto the one below
/// leaves it unchanged: pushing a buffer, blending it with a source-over mode
/// and popping it gives back the stack from before.
pub proof fn lemma_transparent_layer_blend_keeps_stack(
    a: Fine,
    b: Fine,
    c: Fine,
    d: Fine,
    mode: BlendMode,
    alphas: Seq<u8>,
)
    requires
        a.wf(),
        a.depth() >= 1,
        mode.compose == Compose::SrcOver,
        b.stack() == a.stack_after(Cmd::PushBuf, alphas),
        c.stack() == b.stack_after(Cmd::Blend(mode), alphas),
        d.stack() == c.stack_after(Cmd::PopBuf, alphas),
    ensures
        d.stack() == a.stack(),
{
    let n = a.stack().len() as int;
    assert(n % 4096 == 0);
    assert(b.stack().len() == n + SCRATCH_BUF_SIZE);
    assert(b.depth() == n / 4096 + 1);
    assert(b.top() == n);
    let src = b.stack().subrange(n, n + SCRATCH_BUF_SIZE);
    assert forall|k: int| 0 <= k < SCRATCH_BUF_SIZE implies #[trigger] src[k] == 0u8 by {
        assert(src[k] == b.stack()[n + k]);
    }
    assert forall|k: int| 0 <= k < c.stack().len() implies #[trigger] c.stack()[k] == b.stack()[k] by {
        if n - SCRATCH_BUF_SIZE <= k < n {
            let i = k - (n - SCRATCH_BUF_SIZE);
            let bg = b.stack()[k];
            assert(src[i] == 0u8);
            assert(src[(i / 4) * 4 + 3] == 0u8);
            crate::div255::lemma_div_255_exact_on_multiples(bg);
            assert(div_255_spec(0int * 255) == 0);
            assert(255 * bg == bg * 255);
        }
    }
    assert(c.stack() =~= b.stack());
    assert(c.depth() == b.depth());
    assert(d.stack() =~= a.stack());
}

/// A fill or a strip changes nothing outside the columns it paints: the other
/// columns of the top blend buffer and all buffers below stay as they were.
pub proof fn lemma_paint_stays_in_its_columns(a: Fine, cmd: Cmd, alphas: Seq<u8>, k: int)
    requires
        a.wf(),
        a.can_run(cmd, alphas),
        cmd is Fill || cmd is AlphaFill,
        0 <= k < a.stack().len(),
        match cmd {
            Cmd::Fill(f) => !(a.top() + f.x * TILE_HEIGHT_COMPONENTS <= k < a.top() + f.x
                * TILE_HEIGHT_COMPONENTS + TILE_HEIGHT_COMPONENTS * f.width),
            Cmd::AlphaFill(s) => !(a.top() + s.x * TILE_HEIGHT_COMPONENTS <= k < a.top() + s.x
                * TILE_HEIGHT_COMPONENTS + TILE_HEIGHT_COMPONENTS * s.width),
            _ => true,
        },
    ensures
        a.stack_after(cmd, alphas)[k] == a.stack()[k],
        a.stack_after(cmd, alphas).len() == a.stack().len(),
{
}

/// Filling with the fully transparent color (all components zero) in the
/// default blend mode changes nothing.
pub proof fn lemma_transparent_fill_keeps(buf: Seq<u8>, start: int, len: int)
    requires
        0 <= start,
        start + len <= buf.len(),
    ensures
        filled(
            buf,
            start,
            len,
            Paint::Solid([0u8, 0u8, 0u8, 0u8]),
            BlendMode { mix: Mix::Normal, compose: Compose::SrcOver },
        ) == buf,
{
    let c = [0u8, 0u8, 0u8, 0u8];
    let mode = BlendMode { mix: Mix::Normal, compose: Compose::SrcOver };
    assert forall|k: int| 0 <= k < buf.len() implies #[trigger] filled(
        buf,
        start,
        len,
        Paint::Solid(c),
        mode,
    )[k] == buf[k] by {
        if start <= k < start + len {
            let i = k - start;
            assert(c@[i % 4] == 0u8);
            assert(c@[3] == 0u8);
            crate::fine::fill::lemma_src_over_transparent_keeps(buf[k]);
        }
    }
    assert(filled(buf, start, len, Paint::Solid(c), mode) =~= buf);
}

/// An opaque solid color filled in the default blend mode replaces every
/// component of each full group of sixty-four that it paints.
pub proof fn lemma_opaque_fill_replaces(buf: Seq<u8>, start: int, len: int, color: [u8; 4], i: int)
    requires
        0 <= start,
        0 <= len,
        start + len <= buf.len(),
        color@[3] == 255,
        0 <= i < (len / 64) * 64,
    ensures
        filled(
            buf,
            start,
            len,
            Paint::Solid(color),
            BlendMode { mix: Mix::Normal, compose: Compose::SrcOver },
        )[start + i] == color@[i % 4],
{
    assert((len / 64) * 64 <= len);
}

/// Shaded colors that are all opaque can be copied instead of composited:
/// in the default blend mode, filling with them as colors with opacities and
/// as colors without gives the same result.
pub proof fn lemma_opaque_shaded_fill_is_copy(buf: Seq<u8>, start: int, len: int, colors: Vec<u8>)
    requires
        0 <= start,
        0 <= len,
        start + len <= buf.len(),
        len % 32 == 0,
        colors@.len() == len,
        forall|p: int| 0 <= p < len / 4 ==> #[trigger] colors@[p * 4 + 3] == 255,
    ensures
        filled(
            buf,
            start,
            len,
            Paint::Shaded { colors, has_opacities: true },
            BlendMode { mix: Mix::Normal, compose: Compose::SrcOver },
        ) == filled(
            buf,
            start,
            len,
            Paint::Shaded { colors, has_opacities: false },
            BlendMode { mix: Mix::Normal, compose: Compose::SrcOver },
        ),
{
    let mode = BlendMode { mix: Mix::Normal, compose: Compose::SrcOver };
    let with = Paint::Shaded { colors, has_opacities: true };
    let without = Paint::Shaded { colors, has_opacities: false };
    assert forall|k: int| 0 <= k < buf.len() implies #[trigger] filled(buf, start, len, with, mode)[k]
        == filled(buf, start, len, without, mode)[k] by {
        if start <= k < start + len {
            let i = k - start;
            assert((len / 32) * 32 == len);
            assert(colors@[(i / 4) * 4 + 3] == 255);
            assert(div_255_spec(buf[k] * (255 - 255)) == 0);
        }
    }
    assert(filled(buf, start, len, with, mode) =~= filled(buf, start, len, without, mode));
}

/// A strip that covers nothing (every coverage value zero) leaves the buffer as
/// it was, whatever its paint, when it composes source-over.
pub proof fn lemma_uncovered_strip_keeps(
    buf: Seq<u8>,
    start: int,
    len: int,
    alphas: Seq<u8>,
    paint: Paint,
    mode: BlendMode,
)
    requires
        0 <= start,
        0 <= len,
        start + len <= buf.len(),
        mode.compose == Compose::SrcOver,
        forall|i: int| 0 <= i < alphas.len() ==> #[trigger] alphas[i] == 0,
    ensures
        stripped(buf, start, len, alphas, paint, mode) == buf,
{
    assert forall|k: int| 0 <= k < buf.len() implies #[trigger] stripped(
        buf,
        start,
        len,
        alphas,
        paint,
        mode,
    )[k] == buf[k] by {
        if start <= k < start + len {
            let i = k - start;
            if i < strip_components(len, alphas.len() as int) {
                assert(i / 4 < alphas.len());
                assert(alphas[i / 4] == 0);
                let c = paint_component(paint, i) as u8;
                let a = paint_alpha(paint, i) as u8;
                if is_default_blend(mode) {
                    crate::fine::strip::lemma_strip_uncovered_keeps(buf[k], c, a);
                } else {
                    crate::fine2::lowp::compose::lemma_uncovered_src_over_keeps(
                        c,
                        a,
                        buf[k],
                        buf[start + (i / 4) * 4 + 3],
                    );
                }
            }
        }
    }
    assert(stripped(buf, start, len, alphas, paint, mode) =~= buf);
}

/// A strip command whose coverage values are all zero, composing source-over,
/// leaves every blend buffer as it was.
pub proof fn lemma_uncovered_strip_keeps_stack(a: Fine, cmd: Cmd, alphas: Seq<u8>)
    requires
        a.wf(),
        a.can_run(cmd, alphas),
        cmd is AlphaFill,
        mode_or_default(cmd->AlphaFill_0.blend_mode).compose == Compose::SrcOver,
        forall|i: int| cmd->AlphaFill_0.alpha_idx <= i < alphas.len() ==> #[trigger] alphas[i] == 0,
    ensures
        a.stack_after(cmd, alphas) == a.stack(),
{
    let f = cmd->AlphaFill_0;
    let masks = alphas.subrange(f.alpha_idx as int, alphas.len() as int);
    assert forall|i: int| 0 <= i < masks.len() implies #[trigger] masks[i] == 0 by {
        assert(masks[i] == alphas[f.alpha_idx + i]);
    }
    assert(a.top() + f.x * TILE_HEIGHT_COMPONENTS + TILE_HEIGHT_COMPONENTS * f.width <= a.stack().len());
    lemma_uncovered_strip_keeps(
        a.stack(),
        a.top() + f.x * TILE_HEIGHT_COMPONENTS,
        TILE_HEIGHT_COMPONENTS * f.width,
        masks,
        f.paint,
        mode_or_default(f.blend_mode),
    );
}

/// `after` has the length of `before` and differs from it only in `[lo, hi)`.
pub open spec fn changes_only(before: Seq<u8>, after: Seq<u8>, lo: int, hi: int) -> bool {
    &&& after.len() == before.len()
    &&& forall|k: int| 0 <= k < before.len() && !(lo <= k < hi) ==> #[trigger] after[k] == before[k]
}

/// Running a command never empties the stack of blend buffers: a push adds one
/// all-zero buffer on top, a pop (allowed only with two or more buffers)
/// removes the top one, and every other command keeps their number. A fill or
/// a strip whose columns lie in the tile changes only the top buffer; a blend,
/// and a clip whose columns lie in the tile, change only the buffer below it.
pub proof fn lemma_run_cmd_keeps_a_buffer(a: Fine, b: Fine, cmd: Cmd, alphas: Seq<u8>)
    requires
        a.wf(),
        a.depth() >= 1,
        cmd is PopBuf || cmd is ClipFill || cmd is ClipStrip || cmd is Blend ==> a.depth() >= 2,
        b.stack() == a.stack_after(cmd, alphas),
    ensures
        b.stack().len() as int % SCRATCH_BUF_SIZE as int == 0,
        b.depth() >= 1,
        b.depth() == a.depth() + if cmd is PushBuf {
            1int
        } else if cmd is PopBuf {
            -1int
        } else {
            0int
        },
        match cmd {
            Cmd::PushBuf => b.stack() == a.stack() + Seq::new(SCRATCH_BUF_SIZE as nat, |k: int| 0u8),
            Cmd::PopBuf => b.stack() == a.stack().subrange(0, a.top()),
            Cmd::Fill(f) => f.x * TILE_HEIGHT_COMPONENTS + TILE_HEIGHT_COMPONENTS * f.width
                <= SCRATCH_BUF_SIZE ==> changes_only(
                a.stack(),
                b.stack(),
                a.top(),
                a.top() + SCRATCH_BUF_SIZE,
            ),
            Cmd::AlphaFill(f) => f.x * TILE_HEIGHT_COMPONENTS + TILE_HEIGHT_COMPONENTS * f.width
                <= SCRATCH_BUF_SIZE ==> changes_only(
                a.stack(),
                b.stack(),
                a.top(),
                a.top() + SCRATCH_BUF_SIZE,
            ),
            Cmd::ClipFill(c) => c.x * TILE_HEIGHT_COMPONENTS + TILE_HEIGHT_COMPONENTS * c.width
                <= SCRATCH_BUF_SIZE ==> changes_only(
                a.stack(),
                b.stack(),
                a.top() - SCRATCH_BUF_SIZE,
                a.top(),
            ),
            Cmd::ClipStrip(c) => c.x * TILE_HEIGHT_COMPONENTS + TILE_HEIGHT_COMPONENTS * c.width
                <= SCRATCH_BUF_SIZE ==> changes_only(
                a.stack(),
                b.stack(),
                a.top() - SCRATCH_BUF_SIZE,
                a.top(),
            ),
            Cmd::Blend(_) => changes_only(a.stack(), b.stack(), a.top() - SCRATCH_BUF_SIZE, a.top()),
        },
{
    let n = a.stack().len() as int;
    assert(n == a.depth() * 4096);
    match cmd {
        Cmd::PushBuf => {
            assert(b.stack().len() == n + 4096);
            assert((n + 4096) / 4096 == a.depth() + 1);
        },
        Cmd::PopBuf => {
            assert(b.stack().len() == a.top());
            assert(a.top() == (a.depth() - 1) * 4096);
            assert(((a.depth() - 1) * 4096) / 4096 == a.depth() - 1);
        },
        Cmd::ClipStrip(c) => {
            assert(b.stack().len() == n);
            let len = TILE_HEIGHT_COMPONENTS * c.width;
            let masks = alphas.subrange(c.alpha_idx as int, alphas.len() as int);
            assert(strip_components(len as int, masks.len() as int) <= (len / 32) * 32);
            assert((len / 32) * 32 <= len);
        },
        Cmd::ClipFill(c) => {
            assert(b.stack().len() == n);
            let len = TILE_HEIGHT_COMPONENTS * c.width;
            assert((len / 32) * 32 <= len);
        },
        _ => {
            assert(b.stack().len() == n);
        },
    }
}

/// Every component in `[start, start + len)` of `buf` is at most the alpha of
/// its pixel, pixels being groups of four components from `start` on.
pub open spec fn premultiplied_in(buf: Seq<u8>, start: int, len: int) -> bool {
    forall|k: int|
        start <= k < start + len ==> #[trigger] buf[k] <= buf[start + ((k - start) / 4) * 4 + 3]
}

/// Every color that `paint` gives the `len` components it paints is
/// premultiplied: no component exceeds the alpha of its pixel.
pub open spec fn paint_premultiplied(paint: Paint, len: int) -> bool {
    forall|i: int| 0 <= i < len ==> #[trigger] paint_component(paint, i) <= paint_alpha(paint, i)
}

/// A premultiplied paint can be painted through any coverage onto any buffer
/// without its 16-bit sums reaching the limit of `div_255`.
pub proof fn lemma_premultiplied_strip_fits(
    buf: Seq<u8>,
    start: int,
    len: int,
    alphas: Seq<u8>,
    paint: Paint,
    mode: BlendMode,
)
    requires
        0 <= start,
        0 <= len,
        start + len <= buf.len(),
        paint_premultiplied(paint, len),
    ensures
        strip_fits(buf, start, len, alphas, paint, mode),
{
    assert forall|i: int| 0 <= i < strip_components(len, alphas.len() as int) implies #[trigger] strip_channel_sum(
        buf[start + i] as int,
        paint_component(paint, i),
        paint_alpha(paint, i),
        alphas[i / 4] as int,
    ) < 65280 by {
        assert(i < len);
        assert(i / 4 < alphas.len());
        assert(paint_component(paint, i) <= paint_alpha(paint, i));
        crate::fine::strip::lemma_strip_channel_fits(
            buf[start + i],
            paint_component(paint, i) as u8,
            paint_alpha(paint, i) as u8,
            alphas[i / 4],
        );
    }
}

/// Premultiplied colors `src` can be clipped through any coverage onto any
/// buffer without the 16-bit sums reaching the limit of `div_255`.
pub proof fn lemma_premultiplied_clip_strip_fits(
    buf: Seq<u8>,
    start: int,
    len: int,
    src: Seq<u8>,
    alphas: Seq<u8>,
)
    requires
        0 <= start,
        0 <= len,
        start + len <= buf.len(),
        len % 4 == 0,
        src.len() == len,
        premultiplied_in(src, 0, len),
    ensures
        clip_strip_fits(buf, start, len, src, alphas),
{
    assert forall|i: int| 0 <= i < strip_components(len, alphas.len() as int) implies #[trigger] strip_channel_sum(
        buf[start + i] as int,
        src[i] as int,
        src[(i / 4) * 4 + 3] as int,
        alphas[i / 4] as int,
    ) < 65280 by {
        assert(i < len);
        assert(i / 4 < alphas.len());
        assert(src[i] <= src[0 + ((i - 0) / 4) * 4 + 3]);
        crate::fine::strip::lemma_strip_channel_fits(
            buf[start + i],
            src[i],
            src[(i / 4) * 4 + 3],
            alphas[i / 4],
        );
    }
}

/// A strip command with a premultiplied paint whose columns lie in the tile
/// can run.
pub proof fn lemma_premultiplied_strip_can_run(a: Fine, cmd: Cmd, alphas: Seq<u8>)
    requires
        a.wf(),
        a.depth() >= 1,
        cmd is AlphaFill,
        cmd->AlphaFill_0.alpha_idx <= alphas.len(),
        alphas.len() - cmd->AlphaFill_0.alpha_idx >= cmd->AlphaFill_0.width,
        cmd->AlphaFill_0.x * TILE_HEIGHT_COMPONENTS + TILE_HEIGHT_COMPONENTS
            * cmd->AlphaFill_0.width <= SCRATCH_BUF_SIZE,
        paint_fits(cmd->AlphaFill_0.paint, TILE_HEIGHT_COMPONENTS * cmd->AlphaFill_0.width),
        paint_premultiplied(cmd->AlphaFill_0.paint, TILE_HEIGHT_COMPONENTS * cmd->AlphaFill_0.width),
    ensures
        a.can_run(cmd, alphas),
{
    let f = cmd->AlphaFill_0;
    assert(a.stack().len() == a.depth() * 4096);
    lemma_premultiplied_strip_fits(
        a.stack(),
        a.top() + f.x * TILE_HEIGHT_COMPONENTS,
        TILE_HEIGHT_COMPONENTS * f.width,
        alphas.subrange(f.alpha_idx as int, alphas.len() as int),
        f.paint,
        mode_or_default(f.blend_mode),
    );
}

/// A clip-strip command whose columns lie in the tile can run when the top
/// blend buffer is premultiplied.
pub proof fn lemma_premultiplied_clip_strip_can_run(a: Fine, cmd: Cmd, alphas: Seq<u8>)
    requires
        a.wf(),
        a.depth() >= 2,
        cmd is ClipStrip,
        cmd->ClipStrip_0.alpha_idx <= alphas.len(),
        cmd->ClipStrip_0.x * TILE_HEIGHT_COMPONENTS + TILE_HEIGHT_COMPONENTS
            * cmd->ClipStrip_0.width <= SCRATCH_BUF_SIZE,
        premultiplied_in(a.stack(), a.top(), SCRATCH_BUF_SIZE as int),
    ensures
        a.can_run(cmd, alphas),
{
    let c = cmd->ClipStrip_0;
    let off = c.x * TILE_HEIGHT_COMPONENTS;
    let len = TILE_HEIGHT_COMPONENTS * c.width;
    assert(a.stack().len() == a.depth() * 4096);
    let cols = a.top_columns(c.x as int, c.width as int);
    assert forall|k: int| 0 <= k < 0 + len implies #[trigger] cols[k] <= cols[0 + ((k - 0) / 4) * 4
        + 3] by {
        let g = a.top() + off + k;
        assert(cols[k] == a.stack()[g]);
        assert(a.stack()[g] <= a.stack()[a.top() + ((g - a.top()) / 4) * 4 + 3]);
        assert((g - a.top()) / 4 == c.x * 4 + k / 4);
        assert(cols[(k / 4) * 4 + 3] == a.stack()[a.top() + off + (k / 4) * 4 + 3]);
    }
    lemma_premultiplied_clip_strip_fits(
        a.stack(),
        a.top() - SCRATCH_BUF_SIZE + off,
        len as int,
        cols,
        alphas.subrange(c.alpha_idx as int, alphas.len() as int),
    );
}

/// Painting through coverage in the default blend mode keeps a premultiplied
/// area premultiplied, when the paint is premultiplied.
#[verifier::spinoff_prover]
#[verifier::rlimit(40)]
pub proof fn lemma_strip_keeps_premultiplied(
    buf: Seq<u8>,
    start: int,
    len: int,
    alphas: Seq<u8>,
    paint: Paint,
    mode: BlendMode,
)
    requires
        0 <= start,
        0 <= len,
        start + len <= buf.len(),
        len % 4 == 0,
        is_default_blend(mode),
        premultiplied_in(buf, start, len),
        paint_premultiplied(paint, len),
    ensures
        premultiplied_in(stripped(buf, start, len, alphas, paint, mode), start, len),
{
    let r = stripped(buf, start, len, alphas, paint, mode);
    let n = strip_components(len, alphas.len() as int);
    assert forall|k: int| start <= k < start + len implies #[trigger] r[k] <= r[start + ((k - start)
        / 4) * 4 + 3] by {
        let i = k - start;
        let ia = (i / 4) * 4 + 3;
        let ka = start + ia;
        assert(ia < len);
        assert(ia / 4 == i / 4 && ia % 4 == 3);
        assert(n % 4 == 0);
        assert(i < n <==> ia < n);
        assert(buf[k] <= buf[ka]);
        if i < n {
            assert(i / 4 < alphas.len());
            let m = alphas[i / 4];
            let c = paint_component(paint, i) as u8;
            let a = paint_alpha(paint, i) as u8;
            assert(paint_component(paint, i) <= paint_alpha(paint, i));
            assert(paint_component(paint, ia) == paint_alpha(paint, i));
            assert(paint_alpha(paint, ia) == paint_alpha(paint, i));
            crate::fine::strip::lemma_strip_keeps_premultiplied(buf[k], buf[ka], c, a, m);
            crate::fine::strip::lemma_strip_channel_fits(buf[k], c, a, m);
            crate::fine::strip::lemma_strip_channel_fits(buf[ka], a, a, m);
            crate::div255::lemma_channel_product_bound(m as u16, a as u16);
            crate::div255::lemma_div_255_bound((m * a) as u16);
            let d = div_255_spec(m * a);
            assert(0 <= strip_channel_sum(buf[k] as int, c as int, a as int, m as int)) by (nonlinear_arith)
                requires
                    0 <= d <= 255,
                    d == div_255_spec(m * a),
            ;
            assert(0 <= strip_channel_sum(buf[ka] as int, a as int, a as int, m as int)) by (nonlinear_arith)
                requires
                    0 <= d <= 255,
                    d == div_255_spec(m * a),
            ;
            assert(r[k] == strip_channel(buf[k] as int, c as int, a as int, m as int) as u8);
            assert(r[ka] == strip_channel(buf[ka] as int, a as int, a as int, m as int) as u8);
        } else {
            assert(r[k] == buf[k]);
            assert(r[ka] == buf[ka]);
        }
    }
}

/// Filling in the default blend mode keeps a premultiplied pixel premultiplied:
/// component `k` stays at most the alpha of its pixel.
#[verifier::spinoff_prover]
proof fn lemma_fill_keeps_premultiplied_at(
    buf: Seq<u8>,
    start: int,
    len: int,
    paint: Paint,
    mode: BlendMode,
    k: int,
)
    requires
        0 <= start,
        0 <= len,
        start + len <= buf.len(),
        len % 4 == 0,
        is_default_blend(mode),
        premultiplied_in(buf, start, len),
        paint_premultiplied(paint, len),
        start <= k < start + len,
    ensures
        filled(buf, start, len, paint, mode)[k] <= filled(buf, start, len, paint, mode)[start + ((k
            - start) / 4) * 4 + 3],
{
    let r = filled(buf, start, len, paint, mode);
    let i = k - start;
    let ia = (i / 4) * 4 + 3;
    let ka = start + ia;
    assert(ia < len);
    assert(ia / 4 == i / 4 && ia % 4 == 3);
    assert(i < (len / 64) * 64 <==> ia < (len / 64) * 64);
    assert(i < (len / 32) * 32 <==> ia < (len / 32) * 32);
    assert(buf[k] <= buf[ka]);
    assert(paint_component(paint, i) <= paint_alpha(paint, i));
    assert(paint_component(paint, ia) == paint_alpha(paint, i));
    let c = paint_component(paint, i) as u8;
    let a = paint_alpha(paint, i) as u8;
    crate::fine::fill::lemma_src_over_channel_fits(buf[k], c, a);
    crate::fine::fill::lemma_src_over_channel_fits(buf[ka], a, a);
    crate::fine::fill::lemma_src_over_keeps_premultiplied(buf[k], buf[ka], c, a);
    assert(r[k] == fill_lane(buf, start, len, paint, mode, i));
    assert(r[ka] == fill_lane(buf, start, len, paint, mode, ia));
    match paint {
        Paint::Solid(col) => {
            assert(c == col@[i % 4] && a == col@[3]);
            assert(col@[ia % 4] == col@[3]);
        },
        Paint::Shaded { colors, has_opacities } => {
            assert(c == colors@[i] && a == colors@[ia]);
        },
    }
}

/// Filling in the default blend mode keeps a premultiplied area
/// premultiplied, when the paint is premultiplied.
pub proof fn lemma_fill_keeps_premultiplied(
    buf: Seq<u8>,
    start: int,
    len: int,
    paint: Paint,
    mode: BlendMode,
)
    requires
        0 <= start,
        0 <= len,
        start + len <= buf.len(),
        len % 4 == 0,
        is_default_blend(mode),
        premultiplied_in(buf, start, len),
        paint_premultiplied(paint, len),
    ensures
        premultiplied_in(filled(buf, start, len, paint, mode), start, len),
{
    assert forall|k: int| start <= k < start + len implies #[trigger] filled(
        buf,
        start,
        len,
        paint,
        mode,
    )[k] <= filled(buf, start, len, paint, mode)[start + ((k - start) / 4) * 4 + 3] by {
        lemma_fill_keeps_premultiplied_at(buf, start, len, paint, mode, k);
    }
}

/// In the default blend mode a fill composites its colors source-over (the
/// copy of an opaque solid color is the same thing): component `i` of the
/// painted area is the source-over of the paint onto the destination, which is
/// also what composing by `SrcOver` gives. Solid colors go sixty-four
/// components at a time, shaded colors with opacities thirty-two.
pub proof fn lemma_default_fill_is_source_over(buf: Seq<u8>, start: int, len: int, paint: Paint, i: int)
    requires
        0 <= start,
        0 <= len,
        start + len <= buf.len(),
        len % 4 == 0,
        paint_fits(paint, len),
        0 <= i,
        paint is Solid ==> i < (len / 64) * 64,
        paint is Shaded ==> paint->has_opacities && i < (len / 32) * 32,
    ensures
        filled(buf, start, len, paint, BlendMode { mix: Mix::Normal, compose: Compose::SrcOver })[start
            + i] == (src_over_channel(
            buf[start + i] as int,
            paint_component(paint, i),
            paint_alpha(paint, i),
        ) % 256) as u8,
        filled(buf, start, len, paint, BlendMode { mix: Mix::Normal, compose: Compose::SrcOver })[start
            + i] == compose_channel(
            Compose::SrcOver,
            paint_component(paint, i),
            paint_alpha(paint, i),
            buf[start + i] as int,
            buf[start + (i / 4) * 4 + 3] as int,
            255,
        ) as u8,
{
    assert((len / 64) * 64 <= len && (len / 32) * 32 <= len);
    let c = paint_component(paint, i) as u8;
    let a = paint_alpha(paint, i) as u8;
    crate::fine2::lowp::compose::lemma_src_over_composes_as_src_over(c, a, buf[start + i], buf[start
        + (i / 4) * 4 + 3]);
    assert(div_255_spec(buf[start + i] * (255 - 255)) == 0);
}

/// In a blend mode other than the default one, a fill of a solid color or of
/// shaded colors with opacities composes each component by that mode's
/// composition, thirty-two components at a time.
pub proof fn lemma_fill_composes_by_mode(
    buf: Seq<u8>,
    start: int,
    len: int,
    paint: Paint,
    mode: BlendMode,
    i: int,
)
    requires
        0 <= start,
        0 <= len,
        start + len <= buf.len(),
        len % 4 == 0,
        paint_fits(paint, len),
        !is_default_blend(mode),
        paint is Shaded ==> paint->has_opacities,
        0 <= i < (len / 32) * 32,
    ensures
        filled(buf, start, len, paint, mode)[start + i] == compose_channel(
            mode.compose,
            paint_component(paint, i),
            paint_alpha(paint, i),
            buf[start + i] as int,
            buf[start + (i / 4) * 4 + 3] as int,
            255,
        ) as u8,
{
    assert((len / 32) * 32 <= len);
}

/// Shaded colors without opacities are copied, whatever the blend mode.
pub proof fn lemma_opaque_shaded_fill_copies(
    buf: Seq<u8>,
    start: int,
    len: int,
    colors: Vec<u8>,
    mode: BlendMode,
    i: int,
)
    requires
        0 <= start,
        0 <= len,
        start + len <= buf.len(),
        colors@.len() == len,
        0 <= i < len,
    ensures
        filled(buf, start, len, Paint::Shaded { colors, has_opacities: false }, mode)[start + i]
            == colors@[i],
{
}

/// A strip paints component `i` of the covered columns by weighting the paint
/// with the pixel's coverage: source-over with coverage in the default blend
/// mode, and the mode's composition through the coverage otherwise; the
/// components past the covered columns are left as they were.
pub proof fn lemma_strip_paints_through_coverage(
    buf: Seq<u8>,
    start: int,
    len: int,
    alphas: Seq<u8>,
    paint: Paint,
    mode: BlendMode,
    i: int,
)
    requires
        0 <= start,
        0 <= len,
        start + len <= buf.len(),
        0 <= i < len,
    ensures
        i < strip_components(len, alphas.len() as int) && is_default_blend(mode) ==> stripped(
            buf,
            start,
            len,
            alphas,
            paint,
            mode,
        )[start + i] == strip_channel(
            buf[start + i] as int,
            paint_component(paint, i),
            paint_alpha(paint, i),
            alphas[i / 4] as int,
        ) as u8,
        i < strip_components(len, alphas.len() as int) && !is_default_blend(mode) ==> stripped(
            buf,
            start,
            len,
            alphas,
            paint,
            mode,
        )[start + i] == compose_channel(
            mode.compose,
            paint_component(paint, i),
            paint_alpha(paint, i),
            buf[start + i] as int,
            buf[start + (i / 4) * 4 + 3] as int,
            alphas[i / 4] as int,
        ) as u8,
        i >= strip_components(len, alphas.len() as int) ==> stripped(
            buf,
            start,
            len,
            alphas,
            paint,
            mode,
        )[start + i] == buf[start + i],
{
}

/// Blending composes each component of the buffer below the top one with the
/// same component of the top buffer by the composition of `mode`, at full
/// coverage; the other buffers are left as they were.
pub proof fn lemma_blend_composes_by_mode(a: Fine, mode: BlendMode, k: int)
    requires
        a.wf(),
        a.depth() >= 2,
        0 <= k < a.stack().len(),
    ensures
        a.top() - SCRATCH_BUF_SIZE <= k < a.top() ==> a.stack_after(Cmd::Blend(mode), Seq::empty())[k]
            == compose_channel(
            mode.compose,
            a.stack()[k + SCRATCH_BUF_SIZE] as int,
            a.stack()[a.top() + ((k - (a.top() - SCRATCH_BUF_SIZE)) / 4) * 4 + 3] as int,
            a.stack()[k] as int,
            a.stack()[(a.top() - SCRATCH_BUF_SIZE) + ((k - (a.top() - SCRATCH_BUF_SIZE)) / 4) * 4
                + 3] as int,
            255,
        ) as u8,
        !(a.top() - SCRATCH_BUF_SIZE <= k < a.top()) ==> a.stack_after(
            Cmd::Blend(mode),
            Seq::empty(),
        )[k] == a.stack()[k],
{
    assert(a.stack().len() == a.depth() * 4096);
}

/// Blending with `Dest` leaves the stack as it was, and blending with `Clear`
/// clears the buffer below the top one.
pub proof fn lemma_blend_dest_and_clear(a: Fine, mix: Mix, k: int)
    requires
        a.wf(),
        a.depth() >= 2,
        0 <= k < a.stack().len(),
    ensures
        a.stack_after(Cmd::Blend(BlendMode { mix, compose: Compose::Dest }), Seq::empty()) == a.stack(),
        a.stack_after(Cmd::Blend(BlendMode { mix, compose: Compose::Clear }), Seq::empty())[k] == if a.top()
            - SCRATCH_BUF_SIZE <= k < a.top() {
            0u8
        } else {
            a.stack()[k]
        },
{
    assert(a.stack().len() == a.depth() * 4096);
    let lo = a.top() - SCRATCH_BUF_SIZE;
    let d = a.stack_after(Cmd::Blend(BlendMode { mix, compose: Compose::Dest }), Seq::empty());
    assert forall|j: int| 0 <= j < a.stack().len() implies #[trigger] d[j] == a.stack()[j] by {
        if lo <= j < a.top() {
            let ia = lo + ((j - lo) / 4) * 4 + 3;
            crate::fine2::lowp::compose::lemma_dest_keeps_destination(
                a.stack()[j + SCRATCH_BUF_SIZE],
                a.stack()[a.top() + ((j - lo) / 4) * 4 + 3],
                a.stack()[j],
                a.stack()[ia],
                255,
            );
        }
    }
    assert(d =~= a.stack());
    if lo <= k < a.top() {
        crate::fine2::lowp::compose::lemma_clear_clears(
            a.stack()[k + SCRATCH_BUF_SIZE],
            a.stack()[a.top() + ((k - lo) / 4) * 4 + 3],
            a.stack()[k],
            a.stack()[lo + ((k - lo) / 4) * 4 + 3],
            255,
        );
    }
}

/// Clipping whole columns composites, source-over, the top buffer's own
/// columns `x..x + width` onto the same columns of the buffer below,
/// thirty-two components at a time.
pub proof fn lemma_clip_fill_composites_own_columns(a: Fine, c: CmdClipFill, i: int)
    requires
        a.wf(),
        a.depth() >= 2,
        c.x * TILE_HEIGHT_COMPONENTS + TILE_HEIGHT_COMPONENTS * c.width <= SCRATCH_BUF_SIZE,
        0 <= i < ((TILE_HEIGHT_COMPONENTS * c.width) / 32) * 32,
    ensures
        ({
            let lo = a.top() - SCRATCH_BUF_SIZE + c.x * TILE_HEIGHT_COMPONENTS;
            let hi = a.top() + c.x * TILE_HEIGHT_COMPONENTS;
            a.stack_after(Cmd::ClipFill(c), Seq::empty())[lo + i] == (src_over_channel(
                a.stack()[lo + i] as int,
                a.stack()[hi + i] as int,
                a.stack()[hi + (i / 4) * 4 + 3] as int,
            ) % 256) as u8
        }),
{
    assert(a.stack().len() == a.depth() * 4096);
    let len = TILE_HEIGHT_COMPONENTS * c.width;
    assert((len / 32) * 32 <= len);
    assert((i / 4) * 4 + 3 < len);
}

/// Clipping columns that are transparent (all zero) in the top buffer leaves
/// the stack as it was.
pub proof fn lemma_clip_fill_of_transparent_columns_keeps(a: Fine, c: CmdClipFill)
    requires
        a.wf(),
        a.depth() >= 2,
        c.x * TILE_HEIGHT_COMPONENTS + TILE_HEIGHT_COMPONENTS * c.width <= SCRATCH_BUF_SIZE,
        forall|j: int|
            a.top() + c.x * TILE_HEIGHT_COMPONENTS <= j < a.top() + c.x * TILE_HEIGHT_COMPONENTS
                + TILE_HEIGHT_COMPONENTS * c.width ==> #[trigger] a.stack()[j] == 0,
    ensures
        a.stack_after(Cmd::ClipFill(c), Seq::empty()) == a.stack(),
{
    assert(a.stack().len() == a.depth() * 4096);
    let r = a.stack_after(Cmd::ClipFill(c), Seq::empty());
    let lo = a.top() - SCRATCH_BUF_SIZE + c.x * TILE_HEIGHT_COMPONENTS;
    let len = TILE_HEIGHT_COMPONENTS * c.width;
    let cols = a.top_columns(c.x as int, c.width as int);
    assert forall|k: int| 0 <= k < a.stack().len() implies #[trigger] r[k] == a.stack()[k] by {
        if lo <= k < lo + (len / 32) * 32 {
            assert((len / 32) * 32 <= len);
            let i = k - lo;
            assert((i / 4) * 4 + 3 < len);
            assert(cols[i] == a.stack()[a.top() + c.x * TILE_HEIGHT_COMPONENTS + i]);
            assert(cols[(i / 4) * 4 + 3] == a.stack()[a.top() + c.x * TILE_HEIGHT_COMPONENTS + (i / 4)
                * 4 + 3]);
            crate::fine::fill::lemma_src_over_transparent_keeps(a.stack()[k]);
        }
    }
    assert(r =~= a.stack());
}

/// Clipping columns through coverage composites, source-over weighted by each
/// pixel's coverage, the top buffer's own columns `x..x + width` onto the same
/// columns of the buffer below.
pub proof fn lemma_clip_strip_composites_own_columns(
    a: Fine,
    c: CmdClipAlphaFill,
    alphas: Seq<u8>,
    i: int,
)
    requires
        a.wf(),
        a.depth() >= 2,
        c.alpha_idx <= alphas.len(),
        c.x * TILE_HEIGHT_COMPONENTS + TILE_HEIGHT_COMPONENTS * c.width <= SCRATCH_BUF_SIZE,
        0 <= i < strip_components(
            TILE_HEIGHT_COMPONENTS * c.width,
            alphas.len() - c.alpha_idx,
        ),
    ensures
        ({
            let lo = a.top() - SCRATCH_BUF_SIZE + c.x * TILE_HEIGHT_COMPONENTS;
            let hi = a.top() + c.x * TILE_HEIGHT_COMPONENTS;
            a.stack_after(Cmd::ClipStrip(c), alphas)[lo + i] == strip_channel(
                a.stack()[lo + i] as int,
                a.stack()[hi + i] as int,
                a.stack()[hi + (i / 4) * 4 + 3] as int,
                alphas[c.alpha_idx + i / 4] as int,
            ) as u8
        }),
{
    assert(a.stack().len() == a.depth() * 4096);
    let len = TILE_HEIGHT_COMPONENTS * c.width;
    let masks = alphas.subrange(c.alpha_idx as int, alphas.len() as int);
    assert(strip_components(len as int, masks.len() as int) <= (len / 32) * 32);
    assert((len / 32) * 32 <= len);
    assert((i / 4) * 4 + 3 < len);
    assert(i / 4 < masks.len());
    assert(masks[i / 4] == alphas[c.alpha_idx + i / 4]);
}

/// The colors that a paint gives its components: a solid color repeats over
/// every pixel; shaded colors give each component its own value, and each
/// pixel the alpha stored as its fourth component.
pub proof fn lemma_paint_component_reads_the_paint(paint: Paint, i: int)
    requires
        0 <= i,
    ensures
        paint matches Paint::Solid(c) ==> paint_component(paint, i) == c@[i % 4] as int
            && paint_alpha(paint, i) == c@[3] as int,
        paint matches Paint::Shaded { colors, .. } ==> paint_component(paint, i) == colors@[i] as int
            && paint_alpha(paint, i) == colors@[(i / 4) * 4 + 3] as int,
{
}

/// A strip command reads the coverage of its pixels from the alpha buffer
/// starting at its `alpha_idx`, pixel by pixel, and in the default blend mode
/// paints the top buffer's columns source-over through that coverage.
pub proof fn lemma_strip_command_reads_coverage_from_its_index(
    a: Fine,
    f: CmdAlphaFill,
    alphas: Seq<u8>,
    i: int,
)
    requires
        a.wf(),
        a.depth() >= 1,
        f.alpha_idx <= alphas.len(),
        f.x * TILE_HEIGHT_COMPONENTS + TILE_HEIGHT_COMPONENTS * f.width <= SCRATCH_BUF_SIZE,
        f.blend_mode is None,
        f.paint is Solid,
        0 <= i < strip_components(TILE_HEIGHT_COMPONENTS * f.width, alphas.len() - f.alpha_idx),
    ensures
        ({
            let k = a.top() + f.x * TILE_HEIGHT_COMPONENTS + i;
            a.stack_after(Cmd::AlphaFill(f), alphas)[k] == strip_channel(
                a.stack()[k] as int,
                f.paint->Solid_0@[i % 4] as int,
                f.paint->Solid_0@[3] as int,
                alphas[f.alpha_idx + i / 4] as int,
            ) as u8
        }),
{
    assert(a.stack().len() == a.depth() * 4096);
    let len = TILE_HEIGHT_COMPONENTS * f.width;
    let masks = alphas.subrange(f.alpha_idx as int, alphas.len() as int);
    assert(strip_components(len as int, masks.len() as int) <= (len / 32) * 32);
    assert((len / 32) * 32 <= len);
    assert(i / 4 < masks.len());
    assert(masks[i / 4] == alphas[f.alpha_idx + i / 4]);
}

/// A fill command without a blend mode composites a solid color source-over
/// onto the top buffer's columns, sixty-four components at a time.
pub proof fn lemma_fill_command_defaults_to_source_over(a: Fine, f: CmdFill, i: int)
    requires
        a.wf(),
        a.depth() >= 1,
        f.x * TILE_HEIGHT_COMPONENTS + TILE_HEIGHT_COMPONENTS * f.width <= SCRATCH_BUF_SIZE,
        f.blend_mode is None,
        f.paint is Solid,
        0 <= i < ((TILE_HEIGHT_COMPONENTS * f.width) / 64) * 64,
    ensures
        ({
            let k = a.top() + f.x * TILE_HEIGHT_COMPONENTS + i;
            a.stack_after(Cmd::Fill(f), Seq::empty())[k] == (src_over_channel(
                a.stack()[k] as int,
                f.paint->Solid_0@[i % 4] as int,
                f.paint->Solid_0@[3] as int,
            ) % 256) as u8
        }),
{
    assert(a.stack().len() == a.depth() * 4096);
    let len = TILE_HEIGHT_COMPONENTS * f.width;
    assert((len / 64) * 64 <= len);
    let k = a.top() + f.x * TILE_HEIGHT_COMPONENTS + i;
    assert(div_255_spec(a.stack()[k] * (255 - 255)) == 0);
}

} // verus!
