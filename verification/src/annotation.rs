//! The plain parts of the annotation model: stroke styles, arrowhead
//! placement and embedded raster images.
use vstd::prelude::*;

verus! {

/// How an outline is drawn: solid line, dashes, or dots.
#[derive(Debug, Clone, Copy, PartialEq, Eq, Hash, Structural)]
pub enum StrokeStyle {
    Solid,
    Dashed,
    Dotted,
}

impl Default for StrokeStyle {
    fn default() -> (s: Self)
        ensures
            s == StrokeStyle::Solid,
    {
        StrokeStyle::Solid
    }
}

/// Which endpoints of an arrow carry an arrowhead.
#[derive(Debug, Clone, Copy, PartialEq, Eq, Structural)]
pub enum ArrowEnds {
    /// Plain line, no heads: the "Line" tool.
    NoHeads,
    /// Head at the `to` end only: the classic "Arrow" tool.
    End,
    /// Heads at both endpoints: the "DoubleArrow" tool.
    Both,
}

impl Default for ArrowEnds {
    fn default() -> (e: Self)
        ensures
            e == ArrowEnds::End,
    {
        ArrowEnds::End
    }
}

/// A raster image embedded in an annotation (e.g. an imported signature
/// stamped onto a PDF). RGBA8, row-major, top-left origin.
#[derive(Debug, Clone, PartialEq)]
pub struct StampImage {
    pub width: u32,
    pub height: u32,
    pub pixels: Vec<u8>,
}

} // verus!
