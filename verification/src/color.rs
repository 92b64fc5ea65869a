//! Colours, as red, green and blue.
use vstd::prelude::*;

verus! {

/// A colour of 24 bits.
#[derive(Clone, Copy, PartialEq, Eq, Structural, Debug)]
pub struct OmmaColor {
    pub r: u8,
    pub g: u8,
    pub b: u8,
}

impl Default for OmmaColor {
    /// White.
    fn default() -> (c: OmmaColor)
        ensures
            c == rgb(255, 255, 255),
    {
        white()
    }
}

impl OmmaColor {
    pub fn new(r: u8, g: u8, b: u8) -> (c: OmmaColor)
        ensures
            c == rgb(r, g, b),
    {
        OmmaColor { r, g, b }
    }
}

/// The colour with the given parts.
pub open spec fn rgb(r: u8, g: u8, b: u8) -> OmmaColor {
    OmmaColor { r, g, b }
}

pub fn white() -> (c: OmmaColor)
    ensures
        c == rgb(255, 255, 255),
{
    OmmaColor { r: 255, g: 255, b: 255 }
}

pub fn light_grey() -> (c: OmmaColor)
    ensures
        c == rgb(200, 200, 200),
{
    OmmaColor { r: 200, g: 200, b: 200 }
}

pub fn dark_grey() -> (c: OmmaColor)
    ensures
        c == rgb(100, 100, 100),
{
    OmmaColor { r: 100, g: 100, b: 100 }
}

pub fn black() -> (c: OmmaColor)
    ensures
        c == rgb(0, 0, 0),
{
    OmmaColor { r: 0, g: 0, b: 0 }
}

pub fn red() -> (c: OmmaColor)
    ensures
        c == rgb(255, 0, 0),
{
    OmmaColor { r: 255, g: 0, b: 0 }
}

pub fn green() -> (c: OmmaColor)
    ensures
        c == rgb(0, 255, 0),
{
    OmmaColor { r: 0, g: 255, b: 0 }
}

pub fn blue() -> (c: OmmaColor)
    ensures
        c == rgb(0, 0, 255),
{
    OmmaColor { r: 0, g: 0, b: 255 }
}

} // verus!
