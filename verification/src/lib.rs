//! Verified pixel arithmetic and SIMD lane operations of the sparse-strips renderer.
#![allow(non_camel_case_types)]

use vstd::prelude::*;

pub mod div255;
pub mod fallback;
pub mod fine;
pub mod fine_experiments;
pub mod fine2;
pub mod neon;
pub mod pack;

verus! {

/// The number of rows in a tile.
pub const TILE_HEIGHT: usize = 4;

/// The number of columns in a wide tile.
pub const WIDE_TILE_WIDTH: usize = 256;

/// The number of color components of a pixel.
pub const COLOR_COMPONENTS: usize = 4;

/// The base trait of every scalar and vector type of the pipeline.
pub trait Base: Sized + Copy {}

/// A scalar type in which color components are stored.
pub trait NumberKind: Base {
    /// The value of a component that is fully off.
    const ZERO: Self;
    /// The value of a component that is half on.
    const MID: Self;
    /// The value of a component that is fully on.
    const ONE: Self;

    /// The 8-bit RGBA color that the four components `src` stand for.
    spec fn rgba8_of(src: Seq<Self>) -> Seq<u8>;

    /// Convert the first four components of `src` to 8-bit RGBA.
    fn to_rgba8(src: &[Self]) -> (r: [u8; 4])
        requires
            src@.len() >= 4,
        ensures
            r@ == Self::rgba8_of(src@.take(4)),
    ;

    /// Convert an 8-bit RGBA color to four components.
    fn from_rgba8(src: &[u8; 4]) -> [Self; 4];

    /// Multiply two components, each read as a fraction of `ONE`.
    fn normalized_mul(&self, other: Self) -> Self;
}

/// A vector with lanes twice as wide as those of `N`.
pub trait Widened<N>: Base {
    /// Narrow each lane to the lane type of `N`.
    fn narrow(self) -> N;

    /// Whether every lane is within the range on which `div_255` is defined.
    spec fn normalizable(&self) -> bool;

    /// Divide each lane by 255 (approximately, see `div_255`).
    fn normalize(self) -> Self
        requires
            self.normalizable(),
    ;
}

} // verus!
