//! Padding: the margins between a window's edge and its content.
use vstd::prelude::*;

verus! {

/// Four margins, each a number of cells.
#[derive(Clone, Copy, PartialEq, Eq, Structural, Debug)]
pub struct OmmaPad {
    pub pad_top: usize,
    pub pad_bottom: usize,
    pub pad_left: usize,
    pub pad_right: usize,
}

impl Default for OmmaPad {
    /// No padding.
    fn default() -> (p: OmmaPad)
        ensures
            p == margins(0, 0, 0, 0),
    {
        OmmaPad::new(0, 0, 0, 0)
    }
}

/// The padding with the given margins.
pub open spec fn margins(top: usize, bottom: usize, left: usize, right: usize) -> OmmaPad {
    OmmaPad { pad_top: top, pad_bottom: bottom, pad_left: left, pad_right: right }
}

impl OmmaPad {
    pub fn new(pad_top: usize, pad_bottom: usize, pad_left: usize, pad_right: usize) -> (p: OmmaPad)
        ensures
            p == margins(pad_top, pad_bottom, pad_left, pad_right),
    {
        OmmaPad { pad_top, pad_bottom, pad_left, pad_right }
    }

    pub fn pad_top(&self) -> (n: usize)
        ensures
            n == self.pad_top,
    {
        self.pad_top
    }

    pub fn pad_bottom(&self) -> (n: usize)
        ensures
            n == self.pad_bottom,
    {
        self.pad_bottom
    }

    pub fn pad_left(&self) -> (n: usize)
        ensures
            n == self.pad_left,
    {
        self.pad_left
    }

    pub fn pad_right(&self) -> (n: usize)
        ensures
            n == self.pad_right,
    {
        self.pad_right
    }
}

} // verus!
