# sparse_strips

The pixel pipeline of a sparse-strips CPU renderer, verified with Verus: the
8-bit compositing kernels, the SIMD lane types they are built from, and the
packing of rendered wide tiles into a pixmap.

Layout:

- `src/div255.rs` — the approximate division by 255 and the normalized
  product of two channel values, with their error bounds.
- `src/fallback/`, `src/neon/` — the portable and the NEON lane types
  (`u8x16` … `u32x16`), written with plain integer lanes; NEON arithmetic
  wraps, the portable one must not overflow.
- `src/pack.rs`, `src/neon/pack.rs` — copying a column-major wide tile into
  the rows of a pixmap; the NEON version moves sixteen pixels at a time and is
  proved to write exactly what the portable one writes.
- `src/fine/` — the first fine rasterizer: source-over fills and strips on
  one scratch buffer.
- `src/fine2/` — the second one: a stack of blend buffers, the 8-bit kernel
  (`lowp`) with all Porter-Duff composition modes, clipping and layer
  blending.
- `src/fine_experiments.rs` — an experimental opaque fill.
- `app/` — CPU feature detection, conversions from the `peniko` and
  `vello_common` types, and the floating-point gradient encoding.
- `tests/` — tests on concrete values.
