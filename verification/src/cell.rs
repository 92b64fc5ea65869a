//! Cells: one character of the screen with its colours and attributes.
use vstd::prelude::*;
use vstd::string::*;

use crate::color::OmmaColor;
use crate::text::{decimal, push_decimal};

verus! {

/// The character of a transparent cell. A transparent cell is never drawn:
/// where one is composited, the cell below it stays as it is.
pub const EMPTY: char = '\0';

/// A character, its foreground and background colour (the terminal's own
/// where unset) and attribute bits.
#[derive(Clone, Copy, PartialEq, Eq, Structural, Debug)]
pub struct OmmaCell {
    pub ch: char,
    pub fg: Option<OmmaColor>,
    pub bg: Option<OmmaColor>,
    pub attrs: u16,
}

/// The cell that shows `ch` in the terminal's own colours.
pub open spec fn glyph(ch: char) -> OmmaCell {
    OmmaCell { ch, fg: None, bg: None, attrs: 0 }
}

/// The escape sequence that selects a foreground colour, or the terminal's own.
pub open spec fn fg_code(fg: Option<OmmaColor>) -> Seq<char> {
    match fg {
        Some(c) => "\x1b[38;2;"@ + decimal(c.r as nat) + ";"@ + decimal(c.g as nat) + ";"@
            + decimal(c.b as nat) + "m"@,
        None => "\x1b[39m"@,
    }
}

/// The escape sequence that selects a background colour, or the terminal's own.
pub open spec fn bg_code(bg: Option<OmmaColor>) -> Seq<char> {
    match bg {
        Some(c) => "\x1b[48;2;"@ + decimal(c.r as nat) + ";"@ + decimal(c.g as nat) + ";"@
            + decimal(c.b as nat) + "m"@,
        None => "\x1b[49m"@,
    }
}

impl Default for OmmaCell {
    /// A blank in the terminal's own colours.
    fn default() -> (c: OmmaCell)
        ensures
            c == glyph(' '),
    {
        OmmaCell::new(' ', None, None, 0)
    }
}

impl OmmaCell {
    pub fn new(ch: char, fg: Option<OmmaColor>, bg: Option<OmmaColor>, attrs: u16) -> (c: OmmaCell)
        ensures
            c == (OmmaCell { ch, fg, bg, attrs }),
    {
        OmmaCell { ch, fg, bg, attrs }
    }

    /// The transparent cell.
    pub fn transparent() -> (c: OmmaCell)
        ensures
            c == glyph(EMPTY),
    {
        OmmaCell::new(EMPTY, None, None, 0)
    }

    /// Whether the cell is transparent: only its character decides.
    pub open spec fn is_transparent(&self) -> bool {
        self.ch == EMPTY
    }

    /// The escape sequence that sets this cell's foreground colour.
    pub fn fgcode(&self) -> (s: String)
        ensures
            s@ == fg_code(self.fg),
    {
        match self.fg {
            Some(fg) => {
                let mut s = String::from_str("\x1b[38;2;");
                push_decimal(&mut s, fg.r as u64);
                s.append(";");
                push_decimal(&mut s, fg.g as u64);
                s.append(";");
                push_decimal(&mut s, fg.b as u64);
                s.append("m");
                s
            },
            None => String::from_str("\x1b[39m"),
        }
    }

    /// The escape sequence that sets this cell's background colour.
    pub fn bgcode(&self) -> (s: String)
        ensures
            s@ == bg_code(self.bg),
    {
        match self.bg {
            Some(bg) => {
                let mut s = String::from_str("\x1b[48;2;");
                push_decimal(&mut s, bg.r as u64);
                s.append(";");
                push_decimal(&mut s, bg.g as u64);
                s.append(";");
                push_decimal(&mut s, bg.b as u64);
                s.append("m");
                s
            },
            None => String::from_str("\x1b[49m"),
        }
    }
}

pub fn default_cell() -> (c: OmmaCell)
    ensures
        c == glyph(' '),
{
    OmmaCell { ch: ' ', fg: None, bg: None, attrs: 0 }
}

pub fn blank_cell() -> (c: OmmaCell)
    ensures
        c == glyph(' '),
{
    OmmaCell { ch: ' ', fg: None, bg: None, attrs: 0 }
}

pub fn empty_cell() -> (c: OmmaCell)
    ensures
        c == glyph(EMPTY),
{
    OmmaCell { ch: EMPTY, fg: None, bg: None, attrs: 0 }
}

pub fn player_cell() -> (c: OmmaCell)
    ensures
        c == glyph('@'),
{
    OmmaCell { ch: '@', fg: None, bg: None, attrs: 0 }
}

pub fn floor_cell() -> (c: OmmaCell)
    ensures
        c == glyph('.'),
{
    OmmaCell { ch: '.', fg: None, bg: None, attrs: 0 }
}

pub fn wall_cell() -> (c: OmmaCell)
    ensures
        c == glyph('#'),
{
    OmmaCell { ch: '#', fg: None, bg: None, attrs: 0 }
}

pub fn horiz_cell() -> (c: OmmaCell)
    ensures
        c == glyph('-'),
{
    OmmaCell { ch: '-', fg: None, bg: None, attrs: 0 }
}

pub fn vert_cell() -> (c: OmmaCell)
    ensures
        c == glyph('|'),
{
    OmmaCell { ch: '|', fg: None, bg: None, attrs: 0 }
}

pub fn corner_cell() -> (c: OmmaCell)
    ensures
        c == glyph('O'),
{
    OmmaCell { ch: 'O', fg: None, bg: None, attrs: 0 }
}

pub fn special_cell() -> (c: OmmaCell)
    ensures
        c == glyph('*'),
{
    OmmaCell { ch: '*', fg: None, bg: None, attrs: 0 }
}

pub fn box_vert_hollow_cell() -> (c: OmmaCell)
    ensures
        c == glyph('\u{2551}'),
{
    OmmaCell { ch: '\u{2551}', fg: None, bg: None, attrs: 0 }
}

pub fn box_horiz_hollow_cell() -> (c: OmmaCell)
    ensures
        c == glyph('\u{2550}'),
{
    OmmaCell { ch: '\u{2550}', fg: None, bg: None, attrs: 0 }
}

pub fn box_corner_tl_hollow_cell() -> (c: OmmaCell)
    ensures
        c == glyph('\u{2554}'),
{
    OmmaCell { ch: '\u{2554}', fg: None, bg: None, attrs: 0 }
}

pub fn box_corner_tr_hollow_cell() -> (c: OmmaCell)
    ensures
        c == glyph('\u{2557}'),
{
    OmmaCell { ch: '\u{2557}', fg: None, bg: None, attrs: 0 }
}

pub fn box_corner_bl_hollow_cell() -> (c: OmmaCell)
    ensures
        c == glyph('\u{255a}'),
{
    OmmaCell { ch: '\u{255a}', fg: None, bg: None, attrs: 0 }
}

pub fn box_corner_br_hollow_cell() -> (c: OmmaCell)
    ensures
        c == glyph('\u{255d}'),
{
    OmmaCell { ch: '\u{255d}', fg: None, bg: None, attrs: 0 }
}

pub fn box_corner_all_hollow_cell() -> (c: OmmaCell)
    ensures
        c == glyph('\u{256c}'),
{
    OmmaCell { ch: '\u{256c}', fg: None, bg: None, attrs: 0 }
}

} // verus!
