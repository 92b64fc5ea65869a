//! Borders: the ring of cells around a window.
use vstd::prelude::*;

use crate::cell::{
    box_corner_bl_hollow_cell, box_corner_br_hollow_cell, box_corner_tl_hollow_cell,
    box_corner_tr_hollow_cell, box_horiz_hollow_cell, box_vert_hollow_cell, glyph, OmmaCell,
};

verus! {

/// The cells of the four edges and the four corners, and whether the border
/// is hidden. A hidden border still takes its ring of the window.
#[derive(Clone, Copy, PartialEq, Eq, Structural, Debug)]
pub struct OmmaBorder {
    pub hidden: bool,
    pub border_top: OmmaCell,
    pub border_bottom: OmmaCell,
    pub border_left: OmmaCell,
    pub border_right: OmmaCell,
    pub border_corner_tl: OmmaCell,
    pub border_corner_tr: OmmaCell,
    pub border_corner_bl: OmmaCell,
    pub border_corner_br: OmmaCell,
}

/// The visible border with `horiz` above and below, `vert` left and right,
/// and `corner` in all four corners.
pub open spec fn framed(horiz: OmmaCell, vert: OmmaCell, corner: OmmaCell) -> OmmaBorder {
    OmmaBorder {
        hidden: false,
        border_top: horiz,
        border_bottom: horiz,
        border_left: vert,
        border_right: vert,
        border_corner_tl: corner,
        border_corner_tr: corner,
        border_corner_bl: corner,
        border_corner_br: corner,
    }
}

impl Default for OmmaBorder {
    /// A visible border of blanks.
    fn default() -> (b: OmmaBorder)
        ensures
            b == framed(glyph(' '), glyph(' '), glyph(' ')),
    {
        let blank = OmmaCell::new(' ', None, None, 0);
        OmmaBorder::new_mono(&blank)
    }
}

impl OmmaBorder {
    /// A border with one cell for the rows, one for the columns and one for
    /// the corners.
    pub fn new(horiz: &OmmaCell, vert: &OmmaCell, corner: &OmmaCell) -> (b: OmmaBorder)
        ensures
            b == framed(*horiz, *vert, *corner),
    {
        OmmaBorder {
            hidden: false,
            border_top: *horiz,
            border_bottom: *horiz,
            border_left: *vert,
            border_right: *vert,
            border_corner_tl: *corner,
            border_corner_tr: *corner,
            border_corner_bl: *corner,
            border_corner_br: *corner,
        }
    }

    /// A border that is the same cell all around.
    pub fn new_mono(mono: &OmmaCell) -> (b: OmmaBorder)
        ensures
            b == framed(*mono, *mono, *mono),
    {
        OmmaBorder::new(mono, mono, mono)
    }

    pub fn hidden(&self) -> (h: bool)
        ensures
            h == self.hidden,
    {
        self.hidden
    }

    pub fn border_bottom(&self) -> (c: &OmmaCell)
        ensures
            *c == self.border_bottom,
    {
        &self.border_bottom
    }

    pub fn border_top(&self) -> (c: &OmmaCell)
        ensures
            *c == self.border_top,
    {
        &self.border_top
    }

    pub fn border_left(&self) -> (c: &OmmaCell)
        ensures
            *c == self.border_left,
    {
        &self.border_left
    }

    pub fn border_right(&self) -> (c: &OmmaCell)
        ensures
            *c == self.border_right,
    {
        &self.border_right
    }

    pub fn border_corner_tl(&self) -> (c: &OmmaCell)
        ensures
            *c == self.border_corner_tl,
    {
        &self.border_corner_tl
    }

    pub fn border_corner_tr(&self) -> (c: &OmmaCell)
        ensures
            *c == self.border_corner_tr,
    {
        &self.border_corner_tr
    }

    pub fn border_corner_bl(&self) -> (c: &OmmaCell)
        ensures
            *c == self.border_corner_bl,
    {
        &self.border_corner_bl
    }

    pub fn border_corner_br(&self) -> (c: &OmmaCell)
        ensures
            *c == self.border_corner_br,
    {
        &self.border_corner_br
    }

    /// Hides a visible border and shows a hidden one. The cells stay.
    pub fn toggle_hidden(&mut self)
        ensures
            *final(self) == (OmmaBorder { hidden: !old(self).hidden, ..*old(self) }),
    {
        self.hidden = !self.hidden
    }

    /// Hides the border. The cells stay.
    pub fn set_hidden(&mut self)
        ensures
            *final(self) == (OmmaBorder { hidden: true, ..*old(self) }),
    {
        self.hidden = true
    }

    /// Shows the border. The cells stay.
    pub fn clear_hidden(&mut self)
        ensures
            *final(self) == (OmmaBorder { hidden: false, ..*old(self) }),
    {
        self.hidden = false
    }
}

/// The border of double lines.
pub fn box_hollow_border() -> (b: OmmaBorder)
    ensures
        b == (OmmaBorder {
            hidden: false,
            border_top: glyph('\u{2550}'),
            border_bottom: glyph('\u{2550}'),
            border_left: glyph('\u{2551}'),
            border_right: glyph('\u{2551}'),
            border_corner_tl: glyph('\u{2554}'),
            border_corner_tr: glyph('\u{2557}'),
            border_corner_bl: glyph('\u{255a}'),
            border_corner_br: glyph('\u{255d}'),
        }),
{
    OmmaBorder {
        hidden: false,
        border_top: box_horiz_hollow_cell(),
        border_bottom: box_horiz_hollow_cell(),
        border_left: box_vert_hollow_cell(),
        border_right: box_vert_hollow_cell(),
        border_corner_tl: box_corner_tl_hollow_cell(),
        border_corner_tr: box_corner_tr_hollow_cell(),
        border_corner_bl: box_corner_bl_hollow_cell(),
        border_corner_br: box_corner_br_hollow_cell(),
    }
}

} // verus!
