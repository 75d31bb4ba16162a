//! Fine rasterization on 8-bit premultiplied colors: the commands of a wide tile
//! are run on a scratch buffer that holds the tile column by column, and the
//! result is packed into the pixmap.

use vstd::prelude::*;

pub mod fill;
pub mod strip;

use crate::fine::fill::{full_column_pixels, src_over_channel, src_over_fits};
use crate::fine::strip::{strip_channel, strip_fits, strip_pixels};
use crate::div255::div_255_spec;
use crate::pack::{pack, pack_args_ok, pack_covers, pixmap_index, tile_index};

verus! {

/// The number of components in one column of a tile.
pub const TILE_HEIGHT_COMPONENTS: usize = 16;

/// The number of components in the scratch buffer of a wide tile.
pub const SCRATCH_BUF_SIZE: usize = 4096;

/// A source of one premultiplied RGBA8 color per pixel, in the order in which the
/// pixels of a wide tile are visited (column by column, top to bottom).
pub trait ColorSource {
    /// Whether the source has a color for each of the first `n` pixels.
    spec fn has_colors(&self, n: int) -> bool;

    /// The color of pixel `p`.
    spec fn color(&self, p: int) -> Seq<u8>;

    /// A source with colors for `n` pixels has colors for fewer.
    proof fn lemma_has_fewer_colors(&self, m: int, n: int)
        requires
            self.has_colors(n),
            0 <= m <= n,
        ensures
            self.has_colors(m),
    ;

    /// The color of pixel `p`.
    fn color_at(&self, p: usize) -> (r: [u8; 4])
        requires
            self.has_colors(p + 1),
        ensures
            r@ == self.color(p as int),
    ;
}

/// The same color for every pixel.
#[derive(Copy, Clone, Debug)]
pub struct RepeatColor(pub [u8; 4]);

impl ColorSource for RepeatColor {
    open spec fn has_colors(&self, n: int) -> bool {
        true
    }

    open spec fn color(&self, p: int) -> Seq<u8> {
        self.0@
    }

    proof fn lemma_has_fewer_colors(&self, m: int, n: int) {
    }

    fn color_at(&self, p: usize) -> (r: [u8; 4]) {
        self.0
    }
}

/// One color per pixel, stored as consecutive groups of four components.
#[derive(Copy, Clone, Debug)]
pub struct ColorChunks<'a>(pub &'a [u8]);

impl<'a> ColorSource for ColorChunks<'a> {
    open spec fn has_colors(&self, n: int) -> bool {
        n * 4 <= self.0@.len()
    }

    open spec fn color(&self, p: int) -> Seq<u8> {
        self.0@.subrange(p * 4, p * 4 + 4)
    }

    proof fn lemma_has_fewer_colors(&self, m: int, n: int) {
    }

    fn color_at(&self, p: usize) -> (r: [u8; 4]) {
        let len = self.0.len();
        let s = p * 4;
        let r = [self.0[s], self.0[s + 1], self.0[s + 2], self.0[s + 3]];
        assert(r@ =~= self.0@.subrange(p * 4, p * 4 + 4));
        r
    }
}

/// Whether every color of `src` up to pixel `n` is premultiplied: no color
/// component exceeds the alpha.
pub open spec fn premultiplied_source<C: ColorSource>(src: C, n: int) -> bool {
    forall|p: int, c: int| 0 <= p < n && 0 <= c < 4 ==> #[trigger] src.color(p)[c] <= src.color(p)[3]
}

} // verus!

verus! {

/// A paint whose colors are ready for compositing.
#[derive(Clone, Debug)]
pub enum EncodedPaint {
    /// A premultiplied RGBA8 color.
    Solid([u8; 4]),
    /// The premultiplied RGBA8 colors that a shader (such as a linear gradient)
    /// produced for the pixels being painted, column by column.
    Shaded(Vec<u8>),
}

/// A fill of whole columns of a wide tile.
#[derive(Clone, Debug)]
pub struct CmdFill {
    /// The first column.
    pub x: u16,
    /// The number of columns.
    pub width: u16,
    /// The paint.
    pub paint: EncodedPaint,
}

/// A fill of columns of a wide tile, weighted by coverage masks.
#[derive(Clone, Debug)]
pub struct CmdAlphaFill {
    /// The first column.
    pub x: u16,
    /// The number of columns.
    pub width: u16,
    /// The index of the first mask value in the alpha buffer.
    pub alpha_ix: usize,
    /// The paint.
    pub paint: EncodedPaint,
}

/// A command of a wide tile.
#[derive(Clone, Debug)]
pub enum Cmd {
    /// Fill whole columns.
    Fill(CmdFill),
    /// Fill columns through coverage masks.
    AlphaFill(CmdAlphaFill),
}

/// The color that `paint` gives pixel `p` of the painted area.
pub open spec fn paint_color(paint: EncodedPaint, p: int) -> Seq<u8> {
    match paint {
        EncodedPaint::Solid(c) => c@,
        EncodedPaint::Shaded(cs) => cs@.subrange(p * 4, p * 4 + 4),
    }
}

/// The scratch buffer after compositing `paint` over the `len` components that
/// start at `start`, the rest kept.
pub open spec fn filled(buf: Seq<u8>, start: int, len: int, paint: EncodedPaint) -> Seq<u8> {
    Seq::new(
        buf.len(),
        |k: int|
            if start <= k < start + len {
                src_over_channel(
                    buf[k] as int,
                    paint_color(paint, (k - start) / 4)[(k - start) % 4] as int,
                    paint_color(paint, (k - start) / 4)[3] as int,
                ) as u8
            } else {
                buf[k]
            },
    )
}

/// The scratch buffer after compositing `paint` through the masks `alphas` over
/// the `len` components that start at `start`, the rest kept.
pub open spec fn stripped(
    buf: Seq<u8>,
    start: int,
    len: int,
    alphas: Seq<u8>,
    paint: EncodedPaint,
) -> Seq<u8> {
    Seq::new(
        buf.len(),
        |k: int|
            if start <= k < start + strip_pixels(len, alphas.len() as int) * 4 {
                strip_channel(
                    buf[k] as int,
                    paint_color(paint, (k - start) / 4)[(k - start) % 4] as int,
                    paint_color(paint, (k - start) / 4)[3] as int,
                    alphas[(k - start) / 4] as int,
                ) as u8
            } else {
                buf[k]
            },
    )
}

/// Whether compositing `paint` over `[start, start + len)` of `buf` fits in 8 bits.
pub open spec fn fill_fits(buf: Seq<u8>, start: int, len: int, paint: EncodedPaint) -> bool {
    forall|k: int|
        start <= k < start + len ==> #[trigger] src_over_channel(
            buf[k] as int,
            paint_color(paint, (k - start) / 4)[(k - start) % 4] as int,
            paint_color(paint, (k - start) / 4)[3] as int,
        ) <= 255
}

/// Whether compositing `paint` through `alphas` over `[start, start + len)` of
/// `buf` stays within the range of `div_255`.
pub open spec fn strip_fits_in(
    buf: Seq<u8>,
    start: int,
    len: int,
    alphas: Seq<u8>,
    paint: EncodedPaint,
) -> bool {
    forall|k: int|
        start <= k < start + strip_pixels(len, alphas.len() as int) * 4
            ==> #[trigger] crate::fine::strip::strip_channel_sum(
            buf[k] as int,
            paint_color(paint, (k - start) / 4)[(k - start) % 4] as int,
            paint_color(paint, (k - start) / 4)[3] as int,
            alphas[(k - start) / 4] as int,
        ) < 65280
}

/// The fine rasterizer of one wide tile at a time, writing into a pixmap of
/// `width * height` RGBA8 pixels.
#[derive(Debug)]
pub struct Fine {
    width: u16,
    height: u16,
    out_buf: Vec<u8>,
    blend_buf: Vec<u8>,
    color_buf: Vec<u8>,
}

impl Fine {
    /// The width of the pixmap.
    pub closed spec fn width_spec(&self) -> u16 {
        self.width
    }

    /// The height of the pixmap.
    pub closed spec fn height_spec(&self) -> u16 {
        self.height
    }

    /// The pixmap.
    pub closed spec fn out(&self) -> Seq<u8> {
        self.out_buf@
    }

    /// The scratch buffer in which the wide tile is composed.
    pub closed spec fn blend(&self) -> Seq<u8> {
        self.blend_buf@
    }

    /// The scratch buffer into which shaders write their colors.
    pub closed spec fn colors(&self) -> Seq<u8> {
        self.color_buf@
    }

    /// Both scratch buffers hold one wide tile.
    pub open spec fn wf(&self) -> bool {
        &&& self.blend().len() == SCRATCH_BUF_SIZE
        &&& self.colors().len() == SCRATCH_BUF_SIZE
    }

    /// Create a new fine rasterizer for a pixmap of `width * height` pixels.
    pub fn new(width: u16, height: u16, out_buf: Vec<u8>) -> (r: Self)
        ensures
            r.wf(),
            r.width_spec() == width,
            r.height_spec() == height,
            r.out() == out_buf@,
            r.blend() == Seq::new(SCRATCH_BUF_SIZE as nat, |k: int| 0u8),
            r.colors() == Seq::new(SCRATCH_BUF_SIZE as nat, |k: int| 0u8),
    {
        let scratch = vec![0u8; SCRATCH_BUF_SIZE];
        let color_scratch = vec![0u8; SCRATCH_BUF_SIZE];
        let r = Fine { width, height, out_buf, blend_buf: scratch, color_buf: color_scratch };
        assert(r.blend() =~= Seq::new(SCRATCH_BUF_SIZE as nat, |k: int| 0u8));
        assert(r.colors() =~= Seq::new(SCRATCH_BUF_SIZE as nat, |k: int| 0u8));
        r
    }

    /// Give the pixmap back.
    pub fn into_out_buf(self) -> (r: Vec<u8>)
        ensures
            r@ == self.out(),
    {
        self.out_buf
    }
}

} // verus!

verus! {

/// Composite `src` over the components `[start, start + len)` of `buf`, where
/// `len` covers whole columns.
fn src_over_region<C: ColorSource>(buf: &mut Vec<u8>, start: usize, len: usize, src: &C)
    requires
        start + len <= old(buf)@.len(),
        len % TILE_HEIGHT_COMPONENTS == 0,
        src.has_colors(len as int / 4),
        forall|k: int|
            start <= k < start + len ==> #[trigger] src_over_channel(
                old(buf)@[k] as int,
                src.color((k - start) / 4)[(k - start) % 4] as int,
                src.color((k - start) / 4)[3] as int,
            ) <= 255,
    ensures
        final(buf)@.len() == old(buf)@.len(),
        forall|k: int|
            0 <= k < old(buf)@.len() ==> #[trigger] final(buf)@[k] == if start <= k < start + len {
                src_over_channel(
                    old(buf)@[k] as int,
                    src.color((k - start) / 4)[(k - start) % 4] as int,
                    src.color((k - start) / 4)[3] as int,
                ) as u8
            } else {
                old(buf)@[k]
            },
{
    let ghost old_buf = buf@;
    let s = buf.as_mut_slice();
    let (head, tail) = s.split_at_mut(start);
    let (region, rest) = tail.split_at_mut(len);
    assert(full_column_pixels(len as int) * 4 == len);
    assert(region@ =~= old_buf.subrange(start as int, start + len));
    assert forall|k: int| 0 <= k < full_column_pixels(region@.len() as int) * 4 implies #[trigger] src_over_channel(
        region@[k] as int,
        src.color(k / 4)[k % 4] as int,
        src.color(k / 4)[3] as int,
    ) <= 255 by {
        assert(region@[k] == old_buf[k + start]);
        assert((k + start) - start == k);
    }
    crate::fine::fill::src_over(region, src);
    assert forall|k: int| 0 <= k < old_buf.len() implies #[trigger] buf@[k] == if start <= k < start + len {
        src_over_channel(
            old_buf[k] as int,
            src.color((k - start) / 4)[(k - start) % 4] as int,
            src.color((k - start) / 4)[3] as int,
        ) as u8
    } else {
        old_buf[k]
    } by {
        if start <= k < start + len {
            assert(buf@[k] == region@[k - start]);
        } else if k < start {
            assert(buf@[k] == head@[k]);
        } else {
            assert(buf@[k] == rest@[k - start - len]);
        }
    }
}

} // verus!

verus! {

/// Composite `src` through the masks `alphas` over the components
/// `[start, start + len)` of `buf`, where `len` covers whole columns.
fn strip_region<C: ColorSource>(
    buf: &mut Vec<u8>,
    start: usize,
    len: usize,
    src: &C,
    alphas: &[u8],
)
    requires
        start + len <= old(buf)@.len(),
        len % TILE_HEIGHT_COMPONENTS == 0,
        src.has_colors(strip_pixels(len as int, alphas@.len() as int)),
        forall|k: int|
            start <= k < start + strip_pixels(len as int, alphas@.len() as int) * 4
                ==> #[trigger] crate::fine::strip::strip_channel_sum(
                old(buf)@[k] as int,
                src.color((k - start) / 4)[(k - start) % 4] as int,
                src.color((k - start) / 4)[3] as int,
                alphas@[(k - start) / 4] as int,
            ) < 65280,
    ensures
        final(buf)@.len() == old(buf)@.len(),
        forall|k: int|
            0 <= k < old(buf)@.len() ==> #[trigger] final(buf)@[k] == if start <= k < start
                + strip_pixels(len as int, alphas@.len() as int) * 4 {
                strip_channel(
                    old(buf)@[k] as int,
                    src.color((k - start) / 4)[(k - start) % 4] as int,
                    src.color((k - start) / 4)[3] as int,
                    alphas@[(k - start) / 4] as int,
                ) as u8
            } else {
                old(buf)@[k]
            },
{
    let ghost old_buf = buf@;
    let ghost n = strip_pixels(len as int, alphas@.len() as int);
    let s = buf.as_mut_slice();
    let (head, tail) = s.split_at_mut(start);
    let (region, rest) = tail.split_at_mut(len);
    assert(n * 4 <= len);
    assert(region@ =~= old_buf.subrange(start as int, start + len));
    assert forall|k: int| 0 <= k < strip_pixels(region@.len() as int, alphas@.len() as int) * 4 implies #[trigger] crate::fine::strip::strip_channel_sum(
        region@[k] as int,
        src.color(k / 4)[k % 4] as int,
        src.color(k / 4)[3] as int,
        alphas@[k / 4] as int,
    ) < 65280 by {
        assert(region@[k] == old_buf[k + start]);
        assert((k + start) - start == k);
    }
    crate::fine::strip::src_over(region, src, alphas);
    assert forall|k: int| 0 <= k < old_buf.len() implies #[trigger] buf@[k] == if start <= k < start + n * 4 {
        strip_channel(
            old_buf[k] as int,
            src.color((k - start) / 4)[(k - start) % 4] as int,
            src.color((k - start) / 4)[3] as int,
            alphas@[(k - start) / 4] as int,
        ) as u8
    } else {
        old_buf[k]
    } by {
        if start <= k < start + len {
            assert(buf@[k] == region@[k - start]);
        } else if k < start {
            assert(buf@[k] == head@[k]);
        } else {
            assert(buf@[k] == rest@[k - start - len]);
        }
    }
}

/// Write `colors` to the components `[start, start + colors.len())` of `buf`.
pub(crate) fn copy_region(buf: &mut Vec<u8>, start: usize, colors: &[u8])
    requires
        start + colors@.len() <= old(buf)@.len(),
    ensures
        final(buf)@ == old(buf)@.subrange(0, start as int) + colors@ + old(buf)@.subrange(
            start + colors@.len(),
            old(buf)@.len() as int,
        ),
{
    let ghost old_buf = buf@;
    let buf_len = buf.len();
    let mut i: usize = 0;
    while i < colors.len()
        invariant
            start + colors@.len() <= old_buf.len(),
            buf_len == old_buf.len(),
            buf@.len() == old_buf.len(),
            i <= colors@.len(),
            forall|k: int|
                0 <= k < old_buf.len() ==> #[trigger] buf@[k] == if start <= k < start + i {
                    colors@[k - start]
                } else {
                    old_buf[k]
                },
        decreases colors@.len() - i,
    {
        buf.set(start + i, colors[i]);
        i = i + 1;
    }
    assert(buf@ =~= old_buf.subrange(0, start as int) + colors@ + old_buf.subrange(
        start + colors@.len(),
        old_buf.len() as int,
    ));
}

impl Fine {
    /// Fill the whole scratch buffer with the premultiplied color `premul_color`.
    pub fn clear(&mut self, premul_color: [u8; 4])
        requires
            old(self).wf(),
        ensures
            final(self).wf(),
            final(self).blend() == Seq::new(SCRATCH_BUF_SIZE as nat, |k: int| premul_color@[k % 4]),
            final(self).colors() == old(self).colors(),
            final(self).out() == old(self).out(),
            final(self).width_spec() == old(self).width_spec(),
            final(self).height_spec() == old(self).height_spec(),
    {
        if premul_color[0] == premul_color[1] && premul_color[1] == premul_color[2]
            && premul_color[2] == premul_color[3] {
            // All components are the same, so every component gets the same value.
            let mut k: usize = 0;
            while k < SCRATCH_BUF_SIZE
                invariant
                    self.blend_buf@.len() == SCRATCH_BUF_SIZE,
                    self.color_buf@ == old(self).color_buf@,
                    self.out_buf@ == old(self).out_buf@,
                    self.width == old(self).width,
                    self.height == old(self).height,
                    k <= SCRATCH_BUF_SIZE,
                    forall|j: int| 0 <= j < 4 ==> #[trigger] premul_color@[j] == premul_color@[0],
                    forall|j: int| 0 <= j < k ==> #[trigger] self.blend_buf@[j] == premul_color@[j % 4],
                decreases SCRATCH_BUF_SIZE - k,
            {
                self.blend_buf.set(k, premul_color[0]);
                k = k + 1;
            }
        } else {
            let mut k: usize = 0;
            while k < SCRATCH_BUF_SIZE
                invariant
                    self.blend_buf@.len() == SCRATCH_BUF_SIZE,
                    self.color_buf@ == old(self).color_buf@,
                    self.out_buf@ == old(self).out_buf@,
                    self.width == old(self).width,
                    self.height == old(self).height,
                    k <= SCRATCH_BUF_SIZE,
                    forall|j: int| 0 <= j < k ==> #[trigger] self.blend_buf@[j] == premul_color@[j % 4],
                decreases SCRATCH_BUF_SIZE - k,
            {
                self.blend_buf.set(k, premul_color[k % 4]);
                k = k + 1;
            }
        }
        assert(self.blend() =~= Seq::new(SCRATCH_BUF_SIZE as nat, |k: int| premul_color@[k % 4]));
    }

    /// Pack the scratch buffer into the pixmap at wide-tile column `x`, tile row `y`.
    pub fn pack(&mut self, x: u16, y: u16)
        requires
            old(self).wf(),
            pack_args_ok(
                old(self).out().len() as int,
                SCRATCH_BUF_SIZE as int,
                x as int,
                y as int,
                old(self).width_spec() as int,
                old(self).height_spec() as int,
            ),
        ensures
            final(self).wf(),
            final(self).blend() == old(self).blend(),
            final(self).colors() == old(self).colors(),
            final(self).width_spec() == old(self).width_spec(),
            final(self).height_spec() == old(self).height_spec(),
            final(self).out().len() == old(self).out().len(),
            forall|i: int, j: int, c: int|
                0 <= i < crate::pack::pack_cols(x as int, old(self).width_spec() as int) && 0 <= j
                    < crate::pack::pack_rows(y as int, old(self).height_spec() as int) && 0 <= c < 4
                    ==> #[trigger] final(self).out()[pixmap_index(
                    x as int,
                    y as int,
                    old(self).width_spec() as int,
                    i,
                    j,
                    c,
                )] == old(self).blend()[tile_index(i, j, c)],
            forall|k: int|
                0 <= k < old(self).out().len() && !pack_covers(
                    k,
                    x as int,
                    y as int,
                    old(self).width_spec() as int,
                    old(self).height_spec() as int,
                ) ==> final(self).out()[k] == old(self).out()[k],
    {
        pack(
            self.out_buf.as_mut_slice(),
            self.blend_buf.as_slice(),
            x as usize,
            y as usize,
            self.width as usize,
            self.height as usize,
        );
        assert forall|i: int, j: int, c: int|
            0 <= i < crate::pack::pack_cols(x as int, old(self).width_spec() as int) && 0 <= j
                < crate::pack::pack_rows(y as int, old(self).height_spec() as int) && 0 <= c < 4
                implies #[trigger] self.out()[pixmap_index(
                x as int,
                y as int,
                old(self).width_spec() as int,
                i,
                j,
                c,
            )] == old(self).blend()[tile_index(i, j, c)] by {
            let sub = self.blend_buf@.subrange(tile_index(i, j, 0), tile_index(i, j, 4));
            assert(sub[c] == self.blend_buf@[tile_index(i, j, c)]);
        }
    }
}

} // verus!

verus! {

/// Write `color` to every pixel of the components `[start, start + len)` of `buf`.
fn fill_color_region(buf: &mut Vec<u8>, start: usize, len: usize, color: [u8; 4])
    requires
        start + len <= old(buf)@.len(),
    ensures
        final(buf)@.len() == old(buf)@.len(),
        forall|k: int|
            0 <= k < old(buf)@.len() ==> #[trigger] final(buf)@[k] == if start <= k < start + len {
                color@[(k - start) % 4]
            } else {
                old(buf)@[k]
            },
{
    let ghost old_buf = buf@;
    let buf_len = buf.len();
    let mut i: usize = 0;
    while i < len
        invariant
            start + len <= old_buf.len(),
            buf_len == old_buf.len(),
            buf@.len() == old_buf.len(),
            i <= len,
            forall|k: int|
                0 <= k < old_buf.len() ==> #[trigger] buf@[k] == if start <= k < start + i {
                    color@[(k - start) % 4]
                } else {
                    old_buf[k]
                },
        decreases len - i,
    {
        buf.set(start + i, color[i % 4]);
        i = i + 1;
    }
}

/// The shader scratch buffer after painting `paint` over `[start, start + len)`:
/// shaded colors are written there, a solid color leaves it alone.
pub open spec fn colors_after(colors: Seq<u8>, start: int, len: int, paint: EncodedPaint) -> Seq<u8> {
    match paint {
        EncodedPaint::Solid(_) => colors,
        EncodedPaint::Shaded(cs) => colors.subrange(0, start) + cs@ + colors.subrange(
            start + len,
            colors.len() as int,
        ),
    }
}

/// Whether `paint` has a color for each pixel of `len` components.
pub open spec fn paint_covers(paint: EncodedPaint, len: int) -> bool {
    match paint {
        EncodedPaint::Solid(_) => true,
        EncodedPaint::Shaded(cs) => cs@.len() == len,
    }
}

impl Fine {
    /// Fill `width` whole columns starting at column `x` with `paint`
    /// (source-over on premultiplied colors).
    pub fn fill(&mut self, x: usize, width: usize, paint: &EncodedPaint)
        requires
            old(self).wf(),
            x * TILE_HEIGHT_COMPONENTS + TILE_HEIGHT_COMPONENTS * width <= SCRATCH_BUF_SIZE,
            paint_covers(*paint, TILE_HEIGHT_COMPONENTS * width),
            fill_fits(
                old(self).blend(),
                x * TILE_HEIGHT_COMPONENTS,
                TILE_HEIGHT_COMPONENTS * width,
                *paint,
            ),
        ensures
            final(self).wf(),
            final(self).blend() == filled(
                old(self).blend(),
                x * TILE_HEIGHT_COMPONENTS,
                TILE_HEIGHT_COMPONENTS * width,
                *paint,
            ),
            final(self).colors() == colors_after(
                old(self).colors(),
                x * TILE_HEIGHT_COMPONENTS,
                TILE_HEIGHT_COMPONENTS * width,
                *paint,
            ),
            final(self).out() == old(self).out(),
            final(self).width_spec() == old(self).width_spec(),
            final(self).height_spec() == old(self).height_spec(),
    {
        let start = x * TILE_HEIGHT_COMPONENTS;
        let len = TILE_HEIGHT_COMPONENTS * width;
        let ghost old_blend = self.blend_buf@;
        match paint {
            EncodedPaint::Solid(color) => {
                if color[3] == 255 {
                    // An opaque color replaces whatever was there.
                    fill_color_region(&mut self.blend_buf, start, len, *color);
                    assert forall|k: int| 0 <= k < old_blend.len() implies #[trigger] self.blend_buf@[k]
                        == filled(old_blend, start as int, len as int, *paint)[k] by {
                        if start <= k < start + len {
                            assert(div_255_spec(old_blend[k] * (255 - color@[3])) == 0);
                        }
                    }
                    assert(self.blend_buf@ =~= filled(old_blend, start as int, len as int, *paint));
                    return ;
                }
                let src = RepeatColor(*color);
                assert forall|k: int| start <= k < start + len implies #[trigger] src_over_channel(
                    old_blend[k] as int,
                    src.color((k - start) / 4)[(k - start) % 4] as int,
                    src.color((k - start) / 4)[3] as int,
                ) <= 255 by {
                    assert(src_over_channel(
                        old_blend[k] as int,
                        paint_color(*paint, (k - start) / 4)[(k - start) % 4] as int,
                        paint_color(*paint, (k - start) / 4)[3] as int,
                    ) <= 255);
                }
                src_over_region(&mut self.blend_buf, start, len, &src);
                assert(self.blend_buf@ =~= filled(old_blend, start as int, len as int, *paint));
            },
            EncodedPaint::Shaded(colors) => {
                copy_region(&mut self.color_buf, start, colors.as_slice());
                let shaded = &self.color_buf.as_slice()[start..start + len];
                assert(shaded@ =~= colors@);
                let src = ColorChunks(shaded);
                assert forall|k: int| start <= k < start + len implies #[trigger] src_over_channel(
                    old_blend[k] as int,
                    src.color((k - start) / 4)[(k - start) % 4] as int,
                    src.color((k - start) / 4)[3] as int,
                ) <= 255 by {
                    assert(src_over_channel(
                        old_blend[k] as int,
                        paint_color(*paint, (k - start) / 4)[(k - start) % 4] as int,
                        paint_color(*paint, (k - start) / 4)[3] as int,
                    ) <= 255);
                }
                src_over_region(&mut self.blend_buf, start, len, &src);
                assert(self.blend_buf@ =~= filled(old_blend, start as int, len as int, *paint));
                assert(self.color_buf@ =~= colors_after(
                    old(self).colors(),
                    start as int,
                    len as int,
                    *paint,
                ));
            },
        }
    }
}

} // verus!

verus! {

impl Fine {
    /// Fill `width` columns starting at column `x` with `paint`, each pixel
    /// weighted by its coverage in `alphas` (one value per pixel, column by column).
    pub fn strip(&mut self, x: usize, width: usize, alphas: &[u8], paint: &EncodedPaint)
        requires
            old(self).wf(),
            alphas@.len() >= width,
            x * TILE_HEIGHT_COMPONENTS + TILE_HEIGHT_COMPONENTS * width <= SCRATCH_BUF_SIZE,
            paint_covers(*paint, TILE_HEIGHT_COMPONENTS * width),
            strip_fits_in(
                old(self).blend(),
                x * TILE_HEIGHT_COMPONENTS,
                TILE_HEIGHT_COMPONENTS * width,
                alphas@,
                *paint,
            ),
        ensures
            final(self).wf(),
            final(self).blend() == stripped(
                old(self).blend(),
                x * TILE_HEIGHT_COMPONENTS,
                TILE_HEIGHT_COMPONENTS * width,
                alphas@,
                *paint,
            ),
            final(self).colors() == colors_after(
                old(self).colors(),
                x * TILE_HEIGHT_COMPONENTS,
                TILE_HEIGHT_COMPONENTS * width,
                *paint,
            ),
            final(self).out() == old(self).out(),
            final(self).width_spec() == old(self).width_spec(),
            final(self).height_spec() == old(self).height_spec(),
    {
        let start = x * TILE_HEIGHT_COMPONENTS;
        let len = TILE_HEIGHT_COMPONENTS * width;
        let ghost old_blend = self.blend_buf@;
        let ghost n = strip_pixels(len as int, alphas@.len() as int);
        assert(n * 4 <= len);
        match paint {
            EncodedPaint::Solid(color) => {
                let src = RepeatColor(*color);
                assert forall|k: int| start <= k < start + n * 4 implies #[trigger] crate::fine::strip::strip_channel_sum(
                    old_blend[k] as int,
                    src.color((k - start) / 4)[(k - start) % 4] as int,
                    src.color((k - start) / 4)[3] as int,
                    alphas@[(k - start) / 4] as int,
                ) < 65280 by {
                    assert(crate::fine::strip::strip_channel_sum(
                        old_blend[k] as int,
                        paint_color(*paint, (k - start) / 4)[(k - start) % 4] as int,
                        paint_color(*paint, (k - start) / 4)[3] as int,
                        alphas@[(k - start) / 4] as int,
                    ) < 65280);
                }
                strip_region(&mut self.blend_buf, start, len, &src, alphas);
                assert(self.blend_buf@ =~= stripped(
                    old_blend,
                    start as int,
                    len as int,
                    alphas@,
                    *paint,
                ));
            },
            EncodedPaint::Shaded(colors) => {
                copy_region(&mut self.color_buf, start, colors.as_slice());
                let shaded = &self.color_buf.as_slice()[start..start + len];
                assert(shaded@ =~= colors@);
                let src = ColorChunks(shaded);
                assert forall|k: int| start <= k < start + n * 4 implies #[trigger] crate::fine::strip::strip_channel_sum(
                    old_blend[k] as int,
                    src.color((k - start) / 4)[(k - start) % 4] as int,
                    src.color((k - start) / 4)[3] as int,
                    alphas@[(k - start) / 4] as int,
                ) < 65280 by {
                    assert(crate::fine::strip::strip_channel_sum(
                        old_blend[k] as int,
                        paint_color(*paint, (k - start) / 4)[(k - start) % 4] as int,
                        paint_color(*paint, (k - start) / 4)[3] as int,
                        alphas@[(k - start) / 4] as int,
                    ) < 65280);
                }
                strip_region(&mut self.blend_buf, start, len, &src, alphas);
                assert(self.blend_buf@ =~= stripped(
                    old_blend,
                    start as int,
                    len as int,
                    alphas@,
                    *paint,
                ));
                assert(self.color_buf@ =~= colors_after(
                    old(self).colors(),
                    start as int,
                    len as int,
                    *paint,
                ));
            },
        }
    }

    /// Run one command of the wide tile; `alphas` holds the masks of all strips.
    pub fn run_cmd(&mut self, cmd: &Cmd, alphas: &[u8])
        requires
            old(self).wf(),
            match *cmd {
                Cmd::Fill(f) => {
                    &&& f.x * TILE_HEIGHT_COMPONENTS + TILE_HEIGHT_COMPONENTS * f.width
                        <= SCRATCH_BUF_SIZE
                    &&& paint_covers(f.paint, TILE_HEIGHT_COMPONENTS * f.width)
                    &&& fill_fits(
                        old(self).blend(),
                        f.x * TILE_HEIGHT_COMPONENTS,
                        TILE_HEIGHT_COMPONENTS * f.width,
                        f.paint,
                    )
                },
                Cmd::AlphaFill(s) => {
                    &&& s.alpha_ix <= alphas@.len()
                    &&& alphas@.len() - s.alpha_ix >= s.width
                    &&& s.x * TILE_HEIGHT_COMPONENTS + TILE_HEIGHT_COMPONENTS * s.width
                        <= SCRATCH_BUF_SIZE
                    &&& paint_covers(s.paint, TILE_HEIGHT_COMPONENTS * s.width)
                    &&& strip_fits_in(
                        old(self).blend(),
                        s.x * TILE_HEIGHT_COMPONENTS,
                        TILE_HEIGHT_COMPONENTS * s.width,
                        alphas@.subrange(s.alpha_ix as int, alphas@.len() as int),
                        s.paint,
                    )
                },
            },
        ensures
            final(self).wf(),
            final(self).out() == old(self).out(),
            final(self).width_spec() == old(self).width_spec(),
            final(self).height_spec() == old(self).height_spec(),
            match *cmd {
                Cmd::Fill(f) => {
                    &&& final(self).blend() == filled(
                        old(self).blend(),
                        f.x * TILE_HEIGHT_COMPONENTS,
                        TILE_HEIGHT_COMPONENTS * f.width,
                        f.paint,
                    )
                    &&& final(self).colors() == colors_after(
                        old(self).colors(),
                        f.x * TILE_HEIGHT_COMPONENTS,
                        TILE_HEIGHT_COMPONENTS * f.width,
                        f.paint,
                    )
                },
                Cmd::AlphaFill(s) => {
                    &&& final(self).blend() == stripped(
                        old(self).blend(),
                        s.x * TILE_HEIGHT_COMPONENTS,
                        TILE_HEIGHT_COMPONENTS * s.width,
                        alphas@.subrange(s.alpha_ix as int, alphas@.len() as int),
                        s.paint,
                    )
                    &&& final(self).colors() == colors_after(
                        old(self).colors(),
                        s.x * TILE_HEIGHT_COMPONENTS,
                        TILE_HEIGHT_COMPONENTS * s.width,
                        s.paint,
                    )
                },
            },
    {
        match cmd {
            Cmd::Fill(f) => {
                self.fill(f.x as usize, f.width as usize, &f.paint);
            },
            Cmd::AlphaFill(s) => {
                let a_slice = &alphas[s.alpha_ix..alphas.len()];
                self.strip(s.x as usize, s.width as usize, a_slice, &s.paint);
            },
        }
    }
}

/// A fill with a solid color composites it source-over onto every component
/// it paints; an opaque color is thereby copied.
pub proof fn lemma_solid_fill_composites_source_over(buf: Seq<u8>, start: int, len: int, color: [u8; 4], k: int)
    requires
        0 <= start,
        start <= k < start + len,
        start + len <= buf.len(),
    ensures
        filled(buf, start, len, EncodedPaint::Solid(color))[k] == src_over_channel(
            buf[k] as int,
            color@[(k - start) % 4] as int,
            color@[3] as int,
        ) as u8,
        color@[3] == 255 ==> filled(buf, start, len, EncodedPaint::Solid(color))[k] == color@[(k
            - start) % 4],
{
    assert(div_255_spec(buf[k] * (255 - 255)) == 0);
}

/// A fill with shaded colors composites each of them source-over onto the
/// component it paints: component `k` gets the shaded component at the same
/// offset, weighted by the alpha of its pixel.
pub proof fn lemma_shaded_fill_composites_source_over(buf: Seq<u8>, start: int, len: int, colors: Vec<u8>, k: int)
    requires
        0 <= start,
        start <= k < start + len,
        start + len <= buf.len(),
        len % 4 == 0,
        colors@.len() == len,
    ensures
        filled(buf, start, len, EncodedPaint::Shaded(colors))[k] == src_over_channel(
            buf[k] as int,
            colors@[k - start] as int,
            colors@[((k - start) / 4) * 4 + 3] as int,
        ) as u8,
{
    let i = k - start;
    assert((i / 4) * 4 + 4 <= len);
    assert((i / 4) * 4 + i % 4 == i);
    let px = colors@.subrange((i / 4) * 4, (i / 4) * 4 + 4);
    assert(px[i % 4] == colors@[i]);
    assert(px[3] == colors@[(i / 4) * 4 + 3]);
}

/// Shaded colors that are all zero (fully transparent) leave the buffer as it was.
pub proof fn lemma_transparent_shaded_fill_keeps(buf: Seq<u8>, start: int, len: int, colors: Vec<u8>)
    requires
        0 <= start,
        0 <= len,
        start + len <= buf.len(),
        len % 4 == 0,
        colors@.len() == len,
        forall|j: int| 0 <= j < len ==> #[trigger] colors@[j] == 0,
    ensures
        filled(buf, start, len, EncodedPaint::Shaded(colors)) == buf,
{
    assert forall|k: int| 0 <= k < buf.len() implies #[trigger] filled(
        buf,
        start,
        len,
        EncodedPaint::Shaded(colors),
    )[k] == buf[k] by {
        if start <= k < start + len {
            lemma_shaded_fill_composites_source_over(buf, start, len, colors, k);
            let i = k - start;
            assert((i / 4) * 4 + 3 < len);
            assert(colors@[i] == 0);
            assert(colors@[(i / 4) * 4 + 3] == 0);
            crate::fine::fill::lemma_src_over_transparent_keeps(buf[k]);
        }
    }
    assert(filled(buf, start, len, EncodedPaint::Shaded(colors)) =~= buf);
}

/// A strip with a solid color composites it source-over, weighted by each
/// pixel's coverage, onto the covered components, and leaves the others.
pub proof fn lemma_solid_strip_composites_through_coverage(
    buf: Seq<u8>,
    start: int,
    len: int,
    alphas: Seq<u8>,
    color: [u8; 4],
    k: int,
)
    requires
        0 <= start,
        start <= k < start + len,
        start + len <= buf.len(),
    ensures
        k < start + strip_pixels(len, alphas.len() as int) * 4 ==> stripped(
            buf,
            start,
            len,
            alphas,
            EncodedPaint::Solid(color),
        )[k] == strip_channel(
            buf[k] as int,
            color@[(k - start) % 4] as int,
            color@[3] as int,
            alphas[(k - start) / 4] as int,
        ) as u8,
        k >= start + strip_pixels(len, alphas.len() as int) * 4 ==> stripped(
            buf,
            start,
            len,
            alphas,
            EncodedPaint::Solid(color),
        )[k] == buf[k],
{
}

/// A strip with shaded colors composites each of them source-over, weighted by
/// its pixel's coverage, onto the covered components, and leaves the others.
pub proof fn lemma_shaded_strip_composites_through_coverage(
    buf: Seq<u8>,
    start: int,
    len: int,
    alphas: Seq<u8>,
    colors: Vec<u8>,
    k: int,
)
    requires
        0 <= start,
        start <= k < start + len,
        start + len <= buf.len(),
        len % 4 == 0,
        colors@.len() == len,
    ensures
        k < start + strip_pixels(len, alphas.len() as int) * 4 ==> stripped(
            buf,
            start,
            len,
            alphas,
            EncodedPaint::Shaded(colors),
        )[k] == strip_channel(
            buf[k] as int,
            colors@[k - start] as int,
            colors@[((k - start) / 4) * 4 + 3] as int,
            alphas[(k - start) / 4] as int,
        ) as u8,
        k >= start + strip_pixels(len, alphas.len() as int) * 4 ==> stripped(
            buf,
            start,
            len,
            alphas,
            EncodedPaint::Shaded(colors),
        )[k] == buf[k],
{
    let i = k - start;
    assert((i / 4) * 4 + 4 <= len);
    assert((i / 4) * 4 + i % 4 == i);
    let px = colors@.subrange((i / 4) * 4, (i / 4) * 4 + 4);
    assert(px[i % 4] == colors@[i]);
    assert(px[3] == colors@[(i / 4) * 4 + 3]);
}

} // verus!
