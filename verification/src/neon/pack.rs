//! Packing a wide tile into a pixmap four rows at a time: each group of
//! sixteen pixels (four columns of four rows) is split into its four rows,
//! which go straight to the four rows of the pixmap.

use vstd::prelude::*;
use vstd::arithmetic::div_mod::lemma_fundamental_div_mod_converse;
use crate::neon::u8x64::u8x64;
use crate::pack::{
    pack_args_ok, pack_base, pack_cols, pack_covers, pack_rows, pixmap_index, tile_index,
};
use crate::{NumberKind, COLOR_COMPONENTS, TILE_HEIGHT, WIDE_TILE_WIDTH};

verus! {

broadcast use u8x64::lemma_len;

/// The row of pixels that one tile row contributes to a group of sixteen pixels.
pub open spec fn group_row(group: Seq<u8>, r: int) -> Seq<u8> {
    Seq::new(16, |t: int| group[((t / 4) * 4 + r) * 4 + t % 4])
}

impl u8x64 {
    /// Lane `e` of the vector.
    fn lane(&self, e: usize) -> (r: u8)
        requires
            e < 64,
        ensures
            r == self@[e as int],
    {
        let lanes = self.to_bytes();
        lanes[e]
    }

    /// The sixty-four lanes as an array.
    pub fn to_bytes(self) -> (r: [u8; 64])
        ensures
            r@ == self@,
    {
        let mut r = [0u8; 64];
        self.store(&mut r);
        r
    }

    /// Read the vector as sixteen 32-bit pixels, four columns of four rows,
    /// and split it into its four rows of four pixels each.
    pub fn split_rows(self) -> (r: ([u8; 16], [u8; 16], [u8; 16], [u8; 16]))
        ensures
            r.0@ == group_row(self@, 0),
            r.1@ == group_row(self@, 1),
            r.2@ == group_row(self@, 2),
            r.3@ == group_row(self@, 3),
    {
        let lanes = self.to_bytes();
        let mut rows = [[0u8; 16]; 4];
        let mut row: usize = 0;
        while row < 4
            invariant
                row <= 4,
                lanes@ == self@,
                forall|q: int| 0 <= q < row ==> (#[trigger] rows@[q])@ == group_row(self@, q),
            decreases 4 - row,
        {
            let mut out = [0u8; 16];
            let mut t: usize = 0;
            while t < 16
                invariant
                    t <= 16,
                    row < 4,
                    lanes@ == self@,
                    forall|u: int| 0 <= u < t ==> out@[u] == group_row(self@, row as int)[u],
                decreases 16 - t,
            {
                out[t] = lanes[((t / 4) * 4 + row) * 4 + t % 4];
                t = t + 1;
            }
            assert(out@ =~= group_row(self@, row as int));
            rows[row] = out;
            row = row + 1;
        }
        (rows[0], rows[1], rows[2], rows[3])
    }
}

/// Write the sixteen values of `src` to `dest[at..at + 16]`.
fn store_16(dest: &mut [u8], at: usize, src: [u8; 16])
    requires
        at + 16 <= old(dest)@.len(),
    ensures
        final(dest)@.len() == old(dest)@.len(),
        forall|k: int|
            0 <= k < old(dest)@.len() ==> #[trigger] final(dest)@[k] == if at <= k < at + 16 {
                src@[k - at]
            } else {
                old(dest)@[k]
            },
{
    let ghost old_dest = dest@;
    let len = dest.len();
    let mut t: usize = 0;
    while t < 16
        invariant
            t <= 16,
            len == old_dest.len(),
            at + 16 <= old_dest.len(),
            dest@.len() == old_dest.len(),
            forall|k: int|
                0 <= k < old_dest.len() ==> #[trigger] dest@[k] == if at <= k < at + t {
                    src@[k - at]
                } else {
                    old_dest[k]
                },
        decreases 16 - t,
    {
        dest[at + t] = src[t];
        t = t + 1;
    }
}

/// What a finished pixmap row holds: row `r` of the wide tile `tile`.
pub open spec fn row_done(row: Seq<u8>, tile: Seq<u8>, r: int, upto: int) -> bool {
    forall|t: int| 0 <= t < upto ==> #[trigger] row[t] == tile[tile_index(t / 4, r, t % 4)]
}

/// Write row `r` of the group of sixteen pixels `idx` into `row[idx * 16..idx * 16 + 16]`.
proof fn lemma_group_row(
    old_row: Seq<u8>,
    new_row: Seq<u8>,
    tile: Seq<u8>,
    group: Seq<u8>,
    src: Seq<u8>,
    r: int,
    idx: int,
)
    requires
        0 <= r < 4,
        0 <= idx < 64,
        tile.len() >= 4096,
        old_row.len() == 1024,
        new_row.len() == 1024,
        group == tile.subrange(idx * 64, idx * 64 + 64),
        src == group_row(group, r),
        row_done(old_row, tile, r, idx * 16),
        forall|k: int|
            0 <= k < 1024 ==> #[trigger] new_row[k] == if idx * 16 <= k < idx * 16 + 16 {
                src[k - idx * 16]
            } else {
                old_row[k]
            },
    ensures
        row_done(new_row, tile, r, idx * 16 + 16),
{
    assert forall|t: int| 0 <= t < idx * 16 + 16 implies #[trigger] new_row[t] == tile[tile_index(
        t / 4,
        r,
        t % 4,
    )] by {
        if t >= idx * 16 {
            let u = t - idx * 16;
            assert(new_row[t] == src[u]);
            assert(src[u] == group[((u / 4) * 4 + r) * 4 + u % 4]);
            assert(t / 4 == idx * 4 + u / 4);
            assert(t % 4 == u % 4);
            assert(tile_index(t / 4, r, t % 4) == idx * 64 + ((u / 4) * 4 + r) * 4 + u % 4);
        } else {
            assert(new_row[t] == old_row[t]);
        }
    }
}

/// Pack a whole wide tile: all four rows and all 256 columns lie inside the pixmap.
#[verifier::spinoff_prover]
#[verifier::rlimit(60)]
fn pack_full_tile(out_buf: &mut [u8], in_buf: &[u8], x: usize, y: usize, width: usize)
    requires
        x * WIDE_TILE_WIDTH + WIDE_TILE_WIDTH <= width,
        in_buf@.len() >= 4096,
        pack_base(x as int, y as int, width as int) + 3 * width * 4 + 1024 <= old(out_buf)@.len(),
    ensures
        final(out_buf)@.len() == old(out_buf)@.len(),
        forall|j: int|
            0 <= j < 4 ==> row_done(
                #[trigger] final(out_buf)@.subrange(
                    pack_base(x as int, y as int, width as int) + j * width * 4,
                    pack_base(x as int, y as int, width as int) + j * width * 4 + 1024,
                ),
                in_buf@,
                j,
                1024,
            ),
        forall|k: int|
            0 <= k < old(out_buf)@.len() && (forall|j: int|
                0 <= j < 4 ==> !(pack_base(x as int, y as int, width as int) + #[trigger] (j * width
                    * 4) <= k < pack_base(x as int, y as int, width as int) + j * width * 4 + 1024))
                ==> final(out_buf)@[k] == old(out_buf)@[k],
{
    let ghost old_out = out_buf@;
    let out_len = out_buf.len();
    proof {
        let pb = pack_base(x as int, y as int, width as int);
        assert(pb == (y * 4 * width + x * 256) * 4);
        assert(0 <= y * 4 * width) by (nonlinear_arith)
            requires
                width >= 0,
        ;
        assert(y * 4 <= y * 4 * width) by (nonlinear_arith)
            requires
                width >= 1,
        ;
        assert(x * 256 * 4 <= pb);
        assert(width * 4 <= 3 * width * 4);
    }
    let row_len = width * COLOR_COMPONENTS;
    let base = (y * TILE_HEIGHT * width + x * WIDE_TILE_WIDTH) * COLOR_COMPONENTS;
    let gap = row_len - 1024;
    let (head, rest) = out_buf.split_at_mut(base);
    let (r0, rest) = rest.split_at_mut(1024);
    let (g0, rest) = rest.split_at_mut(gap);
    let (r1, rest) = rest.split_at_mut(1024);
    let (g1, rest) = rest.split_at_mut(gap);
    let (r2, rest) = rest.split_at_mut(1024);
    let (g2, rest) = rest.split_at_mut(gap);
    let (r3, tail) = rest.split_at_mut(1024);
    let ghost (h, o0, og0, o1, og1, o2, og2, o3, t) = (
        head@,
        r0@,
        g0@,
        r1@,
        g1@,
        r2@,
        g2@,
        r3@,
        tail@,
    );
    assert(old_out =~= h + o0 + og0 + o1 + og1 + o2 + og2 + o3 + t);
    let mut idx: usize = 0;
    while idx < 64
        invariant
            idx <= 64,
            in_buf@.len() >= 4096,
            r0@.len() == 1024,
            r1@.len() == 1024,
            r2@.len() == 1024,
            r3@.len() == 1024,
            row_done(r0@, in_buf@, 0, idx * 16),
            row_done(r1@, in_buf@, 1, idx * 16),
            row_done(r2@, in_buf@, 2, idx * 16),
            row_done(r3@, in_buf@, 3, idx * 16),
        decreases 64 - idx,
    {
        let group = u8x64::load(&in_buf[idx * 64..idx * 64 + 64]);
        let (p0, p1, p2, p3) = group.split_rows();
        let ghost g = in_buf@.subrange(idx * 64, idx * 64 + 64);
        let ghost (b0, b1, b2, b3) = (r0@, r1@, r2@, r3@);
        store_16(r0, idx * 16, p0);
        store_16(r1, idx * 16, p1);
        store_16(r2, idx * 16, p2);
        store_16(r3, idx * 16, p3);
        proof {
            lemma_group_row(b0, r0@, in_buf@, g, p0@, 0, idx as int);
            lemma_group_row(b1, r1@, in_buf@, g, p1@, 1, idx as int);
            lemma_group_row(b2, r2@, in_buf@, g, p2@, 2, idx as int);
            lemma_group_row(b3, r3@, in_buf@, g, p3@, 3, idx as int);
        }
        idx = idx + 1;
    }
    let ghost (n0, n1, n2, n3) = (r0@, r1@, r2@, r3@);
    let ghost (ng0, ng1, ng2, nt, nh) = (g0@, g1@, g2@, tail@, head@);
    proof {
        assert(out_buf@ =~= nh + n0 + ng0 + n1 + ng1 + n2 + ng2 + n3 + nt);
        assert(nh == h && ng0 == og0 && ng1 == og1 && ng2 == og2 && nt == t);
        let b = base as int;
        let w = row_len as int;
        assert(out_buf@.subrange(b, b + 1024) =~= n0);
        assert(out_buf@.subrange(b + w, b + w + 1024) =~= n1);
        assert(out_buf@.subrange(b + 2 * w, b + 2 * w + 1024) =~= n2);
        assert(out_buf@.subrange(b + 3 * w, b + 3 * w + 1024) =~= n3);
        assert(1 * width * 4 == w && 2 * width * 4 == 2 * w && 3 * width * 4 == 3 * w && 0 * width * 4 == 0);
        assert forall|k: int|
            0 <= k < old_out.len() && (forall|j: int|
                0 <= j < 4 ==> !(b + #[trigger] (j * width * 4) <= k < b + j * width * 4 + 1024))
                implies out_buf@[k] == old_out[k] by {
            assert(!(b + 0 * width * 4 <= k < b + 0 * width * 4 + 1024));
            assert(!(b + 1 * width * 4 <= k < b + 1 * width * 4 + 1024));
            assert(!(b + 2 * width * 4 <= k < b + 2 * width * 4 + 1024));
            assert(!(b + 3 * width * 4 <= k < b + 3 * width * 4 + 1024));
        }
    }
}

impl u8x64 {
    /// Copy the wide tile `in_buf`, stored column by column, into the pixmap
    /// `out_buf` of `width * height` RGBA8 pixels at wide-tile column `x` and
    /// tile row `y`, as `crate::pack::pack` does. A tile that lies wholly inside
    /// the pixmap is copied sixteen pixels at a time, each group split into its
    /// four rows; a tile at the right or bottom edge goes through `crate::pack::pack`.
    pub fn pack(out_buf: &mut [u8], in_buf: &[u8], x: usize, y: usize, width: usize, height: usize)
        requires
            pack_args_ok(
                old(out_buf)@.len() as int,
                in_buf@.len() as int,
                x as int,
                y as int,
                width as int,
                height as int,
            ),
        ensures
            final(out_buf)@.len() == old(out_buf)@.len(),
            forall|i: int, j: int, c: int|
                0 <= i < pack_cols(x as int, width as int) && 0 <= j < pack_rows(
                    y as int,
                    height as int,
                ) && 0 <= c < COLOR_COMPONENTS ==> #[trigger] final(out_buf)@[pixmap_index(
                    x as int,
                    y as int,
                    width as int,
                    i,
                    j,
                    c,
                )] == in_buf@[tile_index(i, j, c)],
            forall|k: int|
                0 <= k < old(out_buf)@.len() && !pack_covers(
                    k,
                    x as int,
                    y as int,
                    width as int,
                    height as int,
                ) ==> final(out_buf)@[k] == old(out_buf)@[k],
    {
        let rest_h = height - y * TILE_HEIGHT;
        let max_height = if rest_h < TILE_HEIGHT {
            rest_h
        } else {
            TILE_HEIGHT
        };
        let rest_w = width - x * WIDE_TILE_WIDTH;
        let max_width = if rest_w < WIDE_TILE_WIDTH {
            rest_w
        } else {
            WIDE_TILE_WIDTH
        };
        if max_height != TILE_HEIGHT || max_width != WIDE_TILE_WIDTH {
            // A tile at the edge of the pixmap: pack it pixel by pixel.
            crate::pack::pack::<u8>(out_buf, in_buf, x, y, width, height);
            assert forall|i: int, j: int, c: int|
                0 <= i < pack_cols(x as int, width as int) && 0 <= j < pack_rows(
                    y as int,
                    height as int,
                ) && 0 <= c < COLOR_COMPONENTS implies #[trigger] out_buf@[pixmap_index(
                    x as int,
                    y as int,
                    width as int,
                    i,
                    j,
                    c,
                )] == in_buf@[tile_index(i, j, c)] by {
                let sub = in_buf@.subrange(tile_index(i, j, 0), tile_index(i, j, 4));
                assert(sub[c] == in_buf@[tile_index(i, j, c)]);
            }
        } else {
            let ghost old_out = out_buf@;
            pack_full_tile(out_buf, in_buf, x, y, width);
            let ghost b = pack_base(x as int, y as int, width as int);
            let ghost w = width * 4;
            assert forall|i: int, j: int, c: int|
                0 <= i < pack_cols(x as int, width as int) && 0 <= j < pack_rows(
                    y as int,
                    height as int,
                ) && 0 <= c < COLOR_COMPONENTS implies #[trigger] out_buf@[pixmap_index(
                    x as int,
                    y as int,
                    width as int,
                    i,
                    j,
                    c,
                )] == in_buf@[tile_index(i, j, c)] by {
                assert(0 <= j * width * 4 <= 3 * width * 4) by (nonlinear_arith)
                    requires
                        0 <= j < 4,
                        width >= 0,
                ;
                let row = out_buf@.subrange(
                    pack_base(x as int, y as int, width as int) + j * width * 4,
                    pack_base(x as int, y as int, width as int) + j * width * 4 + 1024,
                );
                assert(row_done(row, in_buf@, j, 1024));
                let t = i * 4 + c;
                assert(0 <= t < 1024);
                assert(row[t] == in_buf@[tile_index(t / 4, j, t % 4)]);
                assert(t / 4 == i && t % 4 == c);
                assert(row[t] == out_buf@[pixmap_index(x as int, y as int, width as int, i, j, c)]);
            }
            assert forall|k: int|
                0 <= k < old_out.len() && !pack_covers(
                    k,
                    x as int,
                    y as int,
                    width as int,
                    height as int,
                ) implies out_buf@[k] == old_out[k] by {
                assert forall|j: int| 0 <= j < 4 implies !(b + #[trigger] (j * width * 4) <= k < b + j
                    * width * 4 + 1024) by {
                    if b + j * width * 4 <= k < b + j * width * 4 + 1024 {
                        assert(j * width * 4 == j * w) by (nonlinear_arith)
                            requires
                                w == width * 4,
                        ;
                        lemma_fundamental_div_mod_converse(k - b, w, j, k - b - j * w);
                    }
                }
            }
        }
    }
}

/// Every component that packing covers is component `c` of column `i`, row `j`
/// of the tile, for some column and row inside the pixmap.
proof fn lemma_covered_is_pixmap_index(k: int, x: int, y: int, width: int, height: int)
    requires
        width > 0,
        pack_covers(k, x, y, width, height),
    ensures
        ({
            let w = width * COLOR_COMPONENTS;
            let m = (k - pack_base(x, y, width)) % w;
            let j = (k - pack_base(x, y, width)) / w;
            &&& 0 <= m / 4 < pack_cols(x, width)
            &&& 0 <= j < pack_rows(y, height)
            &&& 0 <= m % 4 < 4
            &&& k == pixmap_index(x, y, width, m / 4, j, m % 4)
        }),
{
    let w = width * COLOR_COMPONENTS;
    let base = pack_base(x, y, width);
    let m = (k - base) % w;
    let j = (k - base) / w;
    vstd::arithmetic::div_mod::lemma_fundamental_div_mod(k - base, w);
    assert(j * width * 4 == w * j) by (nonlinear_arith)
        requires
            w == width * 4,
    ;
    assert(j >= 0) by {
        vstd::arithmetic::div_mod::lemma_div_pos_is_pos(k - base, w);
    }
}

/// The NEON pack and the portable pack write the same pixmap: any two results
/// that both meet the contract of packing the same tile into the same pixmap
/// are equal.
pub proof fn lemma_pack_result_is_unique(
    old_out: Seq<u8>,
    in_buf: Seq<u8>,
    x: int,
    y: int,
    width: int,
    height: int,
    out1: Seq<u8>,
    out2: Seq<u8>,
)
    requires
        0 <= x,
        0 <= y,
        pack_args_ok(old_out.len() as int, in_buf.len() as int, x, y, width, height),
        out1.len() == old_out.len(),
        out2.len() == old_out.len(),
        forall|i: int, j: int, c: int|
            0 <= i < pack_cols(x, width) && 0 <= j < pack_rows(y, height) && 0 <= c < 4
                ==> #[trigger] out1[pixmap_index(x, y, width, i, j, c)] == in_buf[tile_index(i, j, c)],
        forall|i: int, j: int, c: int|
            0 <= i < pack_cols(x, width) && 0 <= j < pack_rows(y, height) && 0 <= c < 4
                ==> #[trigger] out2[pixmap_index(x, y, width, i, j, c)] == in_buf[tile_index(i, j, c)],
        forall|k: int|
            0 <= k < old_out.len() && !pack_covers(k, x, y, width, height) ==> out1[k] == old_out[k],
        forall|k: int|
            0 <= k < old_out.len() && !pack_covers(k, x, y, width, height) ==> out2[k] == old_out[k],
    ensures
        out1 == out2,
{
    assert forall|k: int| 0 <= k < out1.len() implies out1[k] == out2[k] by {
        if pack_covers(k, x, y, width, height) {
            assert(pack_cols(x, width) > 0);
            assert(width > 0);
            lemma_covered_is_pixmap_index(k, x, y, width, height);
            let w = width * COLOR_COMPONENTS;
            let m = (k - pack_base(x, y, width)) % w;
            let j = (k - pack_base(x, y, width)) / w;
            assert(out1[pixmap_index(x, y, width, m / 4, j, m % 4)] == in_buf[tile_index(m / 4, j, m % 4)]);
            assert(out2[pixmap_index(x, y, width, m / 4, j, m % 4)] == in_buf[tile_index(m / 4, j, m % 4)]);
        }
    }
    assert(out1 =~= out2);
}

/// On a pixmap of `width * height` pixels whose buffer holds all of them, with
/// a whole wide tile as input and the tile's corner inside the pixmap or at its
/// edge, the NEON pack (`out_neon`, as `u8x64::pack` leaves it) writes exactly
/// what the portable pack (`out_portable`, as `crate::pack::pack::<u8>` leaves it) writes.
pub proof fn lemma_neon_pack_matches_pack(
    old_out: Seq<u8>,
    in_buf: Seq<u8>,
    x: int,
    y: int,
    width: int,
    height: int,
    out_portable: Seq<u8>,
    out_neon: Seq<u8>,
)
    requires
        0 <= x,
        0 <= y,
        y * 4 <= height,
        x * 256 <= width,
        width * height * 4 <= old_out.len(),
        in_buf.len() == 4096,
        out_portable.len() == old_out.len(),
        out_neon.len() == old_out.len(),
        forall|i: int, j: int, c: int|
            0 <= i < pack_cols(x, width) && 0 <= j < pack_rows(y, height) && 0 <= c < 4
                ==> #[trigger] out_portable[pixmap_index(x, y, width, i, j, c)]
                == <u8 as NumberKind>::rgba8_of(
                in_buf.subrange(tile_index(i, j, 0), tile_index(i, j, 4)),
            )[c],
        forall|i: int, j: int, c: int|
            0 <= i < pack_cols(x, width) && 0 <= j < pack_rows(y, height) && 0 <= c < 4
                ==> #[trigger] out_neon[pixmap_index(x, y, width, i, j, c)] == in_buf[tile_index(
                i,
                j,
                c,
            )],
        forall|k: int|
            0 <= k < old_out.len() && !pack_covers(k, x, y, width, height) ==> out_portable[k]
                == old_out[k],
        forall|k: int|
            0 <= k < old_out.len() && !pack_covers(k, x, y, width, height) ==> out_neon[k]
                == old_out[k],
    ensures
        pack_args_ok(old_out.len() as int, in_buf.len() as int, x, y, width, height),
        out_portable == out_neon,
{
    crate::pack::lemma_pixmap_pack_args(old_out.len() as int, in_buf.len() as int, x, y, width, height);
    assert forall|i: int, j: int, c: int|
        0 <= i < pack_cols(x, width) && 0 <= j < pack_rows(y, height) && 0 <= c < 4
            implies #[trigger] out_portable[pixmap_index(x, y, width, i, j, c)] == in_buf[tile_index(
            i,
            j,
            c,
        )] by {
        let sub = in_buf.subrange(tile_index(i, j, 0), tile_index(i, j, 4));
        assert(sub[c] == in_buf[tile_index(i, j, c)]);
    }
    lemma_pack_result_is_unique(old_out, in_buf, x, y, width, height, out_portable, out_neon);
}

} // verus!
