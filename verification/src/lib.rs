//! Decoder for CCITT Group 3 (one-dimensional Modified Huffman, T.4) and
//! Group 4 (two-dimensional MMR, T.6) compressed bilevel fax image data.
//!
//! A decoder turns a compressed byte stream into, for every scanline, the
//! ordered list of positions at which the pixel color flips (a line always
//! starts white). `pels` expands such a change-position list into an explicit
//! row of pixel colors for a given image width.
#![verifier::loop_isolation(false)]
use vstd::prelude::*;

pub mod bits;
pub mod codes;
pub mod decoder;
pub mod generate;
pub mod ppm;
pub mod tables;
pub mod transitions;

verus! {

/// A pixel color. A scanline conceptually always starts White at position 0.
#[derive(Copy, Clone, Debug, PartialEq, Eq, Structural)]
pub enum Color {
    White,
    Black,
}

impl Color {
    /// The opposite color.
    pub open spec fn spec_flip(self) -> Color {
        match self {
            Color::White => Color::Black,
            Color::Black => Color::White,
        }
    }

    /// Logical inversion: White becomes Black and Black becomes White.
    pub fn flip(self) -> (r: Color)
        ensures
            r == self.spec_flip(),
    {
        match self {
            Color::White => Color::Black,
            Color::Black => Color::White,
        }
    }
}

} // verus!
