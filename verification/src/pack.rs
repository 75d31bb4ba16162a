//! Packing a wide tile, stored column by column, into the rows of a pixmap.

use vstd::prelude::*;
use vstd::arithmetic::div_mod::{lemma_fundamental_div_mod, lemma_fundamental_div_mod_converse};
use vstd::arithmetic::mul::{
    lemma_mul_inequality, lemma_mul_is_associative, lemma_mul_is_commutative, lemma_mul_is_distributive_add_other_way,
};
use crate::{NumberKind, COLOR_COMPONENTS, TILE_HEIGHT, WIDE_TILE_WIDTH};

verus! {

/// The number of rows of the tile at `y` that lie inside a pixmap of height `height`.
pub open spec fn pack_rows(y: int, height: int) -> int {
    let rest = height - y * TILE_HEIGHT;
    if rest < TILE_HEIGHT {
        rest
    } else {
        TILE_HEIGHT as int
    }
}

/// The number of columns of the wide tile at `x` that lie inside a pixmap of width `width`.
pub open spec fn pack_cols(x: int, width: int) -> int {
    let rest = width - x * WIDE_TILE_WIDTH;
    if rest < WIDE_TILE_WIDTH {
        rest
    } else {
        WIDE_TILE_WIDTH as int
    }
}

/// The index in the pixmap of the first component of the wide tile at `(x, y)`.
pub open spec fn pack_base(x: int, y: int, width: int) -> int {
    (y * TILE_HEIGHT * width + x * WIDE_TILE_WIDTH) * COLOR_COMPONENTS
}

/// Whether the pixmap component at index `k` lies in row segment
/// `[base + j * stride, base + j * stride + seg)` for some `j < rows`.
pub open spec fn in_row_segments(k: int, base: int, stride: int, rows: int, seg: int) -> bool {
    &&& rows > 0
    &&& seg > 0
    &&& base <= k
    &&& (k - base) / stride < rows
    &&& (k - base) % stride < seg
}

/// Whether packing the wide tile at `(x, y)` writes the pixmap component at index `k`.
pub open spec fn pack_covers(k: int, x: int, y: int, width: int, height: int) -> bool {
    in_row_segments(
        k,
        pack_base(x, y, width),
        width * COLOR_COMPONENTS,
        pack_rows(y, height),
        pack_cols(x, width) * COLOR_COMPONENTS,
    )
}

/// The index in the tile buffer of component `c` of the pixel in column `i`, row `j`.
pub open spec fn tile_index(i: int, j: int, c: int) -> int {
    (i * TILE_HEIGHT + j) * COLOR_COMPONENTS + c
}

/// The index in the pixmap of component `c` of column `i`, row `j` of the wide tile
/// at `(x, y)`.
pub open spec fn pixmap_index(x: int, y: int, width: int, i: int, j: int, c: int) -> int {
    pack_base(x, y, width) + j * width * COLOR_COMPONENTS + i * COLOR_COMPONENTS + c
}

/// What packing needs of its arguments: the tile lies at or before the end of the
/// pixmap, and both buffers are long enough.
pub open spec fn pack_args_ok(
    out_len: int,
    in_len: int,
    x: int,
    y: int,
    width: int,
    height: int,
) -> bool {
    let rows = pack_rows(y, height);
    let cols = pack_cols(x, width);
    let base = pack_base(x, y, width);
    &&& y * TILE_HEIGHT <= height
    &&& x * WIDE_TILE_WIDTH <= width
    &&& rows > 0 ==> base + (rows - 1) * width * COLOR_COMPONENTS + cols * COLOR_COMPONENTS
        <= out_len
    &&& rows > 0 && cols > 0 ==> tile_index(cols - 1, rows - 1, COLOR_COMPONENTS as int) <= in_len
}

/// A component `k` lies in the segments of `rows + 1` rows exactly when it lies in
/// those of the first `rows` rows or in the segment of row `rows`.
proof fn lemma_row_segments_step(k: int, base: int, stride: int, rows: int, seg: int)
    requires
        stride > 0,
        0 < seg <= stride,
        rows >= 0,
    ensures
        in_row_segments(k, base, stride, rows + 1, seg) <==> (in_row_segments(
            k,
            base,
            stride,
            rows,
            seg,
        ) || (base + rows * stride <= k < base + rows * stride + seg)),
{
    if base + rows * stride <= k < base + rows * stride + seg {
        lemma_fundamental_div_mod_converse(k - base, stride, rows, k - base - rows * stride);
    }
    if base <= k {
        lemma_fundamental_div_mod(k - base, stride);
        if (k - base) / stride == rows {
            assert(k - base == rows * stride + (k - base) % stride) by {
                assert(k - base == stride * ((k - base) / stride) + (k - base) % stride);
                lemma_mul_is_commutative(stride, rows);
            }
        }
    }
}

/// Copy the wide tile `in_buf`, stored column by column with four rows of
/// `N` components each, into the pixmap `out_buf` of `width * height` RGBA8 pixels,
/// at wide-tile column `x` and tile row `y`. Only the parts of the tile that lie
/// inside the pixmap are written.
pub fn pack<N: NumberKind>(
    out_buf: &mut [u8],
    in_buf: &[N],
    x: usize,
    y: usize,
    width: usize,
    height: usize,
)
    requires
        pack_args_ok(
            old(out_buf)@.len() as int,
            in_buf@.len() as int,
            x as int,
            y as int,
            width as int,
            height as int,
        ),
    ensures
        final(out_buf)@.len() == old(out_buf)@.len(),
        forall|i: int, j: int, c: int|
            0 <= i < pack_cols(x as int, width as int) && 0 <= j < pack_rows(y as int, height as int)
                && 0 <= c < COLOR_COMPONENTS ==> #[trigger] final(out_buf)@[pixmap_index(
                x as int,
                y as int,
                width as int,
                i,
                j,
                c,
            )] == N::rgba8_of(
                in_buf@.subrange(tile_index(i, j, 0), tile_index(i, j, COLOR_COMPONENTS as int)),
            )[c],
        forall|k: int|
            0 <= k < old(out_buf)@.len() && !pack_covers(
                k,
                x as int,
                y as int,
                width as int,
                height as int,
            ) ==> final(out_buf)@[k] == old(out_buf)@[k],
{
    let ghost rows = pack_rows(y as int, height as int);
    let ghost cols = pack_cols(x as int, width as int);
    let ghost base = pack_base(x as int, y as int, width as int);
    let ghost w4 = width * COLOR_COMPONENTS;
    let ghost seg = cols * COLOR_COMPONENTS;
    let rest_h = height - y * TILE_HEIGHT;
    let max_height = if rest_h < TILE_HEIGHT {
        rest_h
    } else {
        TILE_HEIGHT
    };
    let rest_w = width - x * WIDE_TILE_WIDTH;
    let max_width = if rest_w < WIDE_TILE_WIDTH {
        rest_w
    } else {
        WIDE_TILE_WIDTH
    };
    let out_len = out_buf.len();
    if max_height == 0 {
        // The tile lies below the pixmap: nothing to write.
        return;
    }
    proof {
        lemma_mul_inequality(0, y as int, width as int);
        lemma_mul_inequality(0, max_height - 1, width as int);
    }
    let base_ix = (y * TILE_HEIGHT * width + x * WIDE_TILE_WIDTH) * COLOR_COMPONENTS;
    let mut j: usize = 0;
    while j < max_height
        invariant
            j <= max_height,
            max_height == rows,
            max_width == cols,
            rows == pack_rows(y as int, height as int),
            cols == pack_cols(x as int, width as int),
            base == pack_base(x as int, y as int, width as int),
            base_ix == base,
            w4 == width * COLOR_COMPONENTS,
            seg == cols * COLOR_COMPONENTS,
            0 <= cols <= width,
            0 <= rows <= TILE_HEIGHT,
            pack_args_ok(
                old(out_buf)@.len() as int,
                in_buf@.len() as int,
                x as int,
                y as int,
                width as int,
                height as int,
            ),
            out_buf@.len() == old(out_buf)@.len(),
            out_len == old(out_buf)@.len(),
            forall|i: int, jj: int, c: int|
                0 <= i < cols && 0 <= jj < j && 0 <= c < COLOR_COMPONENTS
                    ==> #[trigger] out_buf@[pixmap_index(
                    x as int,
                    y as int,
                    width as int,
                    i,
                    jj,
                    c,
                )] == N::rgba8_of(
                    in_buf@.subrange(
                        tile_index(i, jj, 0),
                        tile_index(i, jj, COLOR_COMPONENTS as int),
                    ),
                )[c],
            forall|k: int|
                0 <= k < old(out_buf)@.len() && !in_row_segments(k, base, w4, j as int, seg)
                    ==> out_buf@[k] == old(out_buf)@[k],
        decreases max_height - j,
    {
        proof {
            lemma_mul_inequality(j as int, rows - 1, width as int);
            assert(base + (rows - 1) * width * COLOR_COMPONENTS + cols * COLOR_COMPONENTS
                <= old(out_buf)@.len());
            assert(j * width <= (rows - 1) * width);
        }
        let line_ix = base_ix + j * width * COLOR_COMPONENTS;
        let ghost out_row_start = out_buf@;
        let mut i: usize = 0;
        while i < max_width
            invariant
                i <= max_width,
                max_height == rows,
                max_width == cols,
                rows == pack_rows(y as int, height as int),
                cols == pack_cols(x as int, width as int),
                base == pack_base(x as int, y as int, width as int),
                base_ix == base,
                w4 == width * COLOR_COMPONENTS,
                seg == cols * COLOR_COMPONENTS,
                0 <= cols <= width,
                j < rows,
                line_ix == base + j * width * COLOR_COMPONENTS,
                line_ix + cols * COLOR_COMPONENTS <= old(out_buf)@.len(),
                pack_args_ok(
                    old(out_buf)@.len() as int,
                    in_buf@.len() as int,
                    x as int,
                    y as int,
                    width as int,
                    height as int,
                ),
                out_buf@.len() == old(out_buf)@.len(),
                out_len == old(out_buf)@.len(),
            out_len == old(out_buf)@.len(),
                forall|ii: int, c: int|
                    0 <= ii < i && 0 <= c < COLOR_COMPONENTS
                        ==> #[trigger] out_buf@[pixmap_index(
                        x as int,
                        y as int,
                        width as int,
                        ii,
                        j as int,
                        c,
                    )] == N::rgba8_of(
                        in_buf@.subrange(
                            tile_index(ii, j as int, 0),
                            tile_index(ii, j as int, COLOR_COMPONENTS as int),
                        ),
                    )[c],
                forall|k: int|
                    0 <= k < old(out_buf)@.len() && !(line_ix <= k < line_ix + i
                        * COLOR_COMPONENTS) ==> out_buf@[k] == out_row_start[k],
            decreases max_width - i,
        {
            assert(tile_index(cols - 1, rows - 1, COLOR_COMPONENTS as int) <= in_buf@.len());
            let src_start = (i * TILE_HEIGHT + j) * COLOR_COMPONENTS;
            let src = &in_buf[src_start..src_start + COLOR_COMPONENTS];
            let rgba = N::to_rgba8(src);
            let dest_start = line_ix + i * COLOR_COMPONENTS;
            out_buf[dest_start] = rgba[0];
            out_buf[dest_start + 1] = rgba[1];
            out_buf[dest_start + 2] = rgba[2];
            out_buf[dest_start + 3] = rgba[3];
            assert(src@.take(4) =~= src@);
            i = i + 1;
        }
        proof {
            assert forall|k: int|
                0 <= k < old(out_buf)@.len() && !in_row_segments(
                    k,
                    base,
                    w4,
                    j + 1,
                    seg,
                ) implies out_buf@[k] == old(out_buf)@[k] by {
                if cols > 0 {
                    lemma_row_segments_step(k, base, w4, j as int, seg);
                    lemma_mul_is_associative(j as int, width as int, COLOR_COMPONENTS as int);
                }
            }
            assert forall|i: int, jj: int, c: int|
                0 <= i < cols && 0 <= jj < j && 0 <= c < COLOR_COMPONENTS implies out_buf@[
                pixmap_index(x as int, y as int, width as int, i, jj, c)] == out_row_start[
                pixmap_index(x as int, y as int, width as int, i, jj, c)] by {
                lemma_mul_inequality(jj + 1, j as int, width as int);
                lemma_mul_is_distributive_add_other_way(width as int, jj, 1);
            }
        }
        j = j + 1;
    }
    proof {
        assert forall|k: int|
            0 <= k < old(out_buf)@.len() && !pack_covers(
                k,
                x as int,
                y as int,
                width as int,
                height as int,
            ) implies out_buf@[k] == old(out_buf)@[k] by {
            assert(!in_row_segments(k, base, w4, rows, seg));
        }
    }
}

} // verus!

verus! {

/// A tile whose corner lies inside, or at the edge of, a pixmap of
/// `width * height` pixels, packed from a whole wide tile into a buffer that
/// holds every pixel of the pixmap, meets what packing needs.
pub proof fn lemma_pixmap_pack_args(out_len: int, in_len: int, x: int, y: int, width: int, height: int)
    requires
        0 <= x,
        0 <= y,
        y * TILE_HEIGHT <= height,
        x * WIDE_TILE_WIDTH <= width,
        width * height * COLOR_COMPONENTS <= out_len,
        in_len >= 4096,
    ensures
        pack_args_ok(out_len, in_len, x, y, width, height),
{
    let rows = pack_rows(y, height);
    let cols = pack_cols(x, width);
    if rows > 0 {
        assert(pack_base(x, y, width) + (rows - 1) * width * 4 + cols * 4 <= width * height * 4)
            by (nonlinear_arith)
            requires
                0 < rows <= height - y * 4,
                0 <= cols <= width - x * 256,
                0 <= x,
                0 <= y,
                pack_base(x, y, width) == (y * 4 * width + x * 256) * 4,
        ;
    }
}

} // verus!
