use vstd::prelude::*;

verus! {

/// A colour as its three 8-bit channels.
#[derive(Clone, Copy, Debug, PartialEq, Eq, Structural)]
pub struct Color {
    pub r: u8,
    pub g: u8,
    pub b: u8,
}

/// The colour written `0xRRGGBB`; bits above the low 24 are ignored.
pub open spec fn color_of(hex: u32) -> Color {
    Color {
        r: ((hex / 0x10000) % 0x100) as u8,
        g: ((hex / 0x100) % 0x100) as u8,
        b: (hex % 0x100) as u8,
    }
}

/// Splits a hex colour code `0xRRGGBB` into its channels.
pub fn rgb_from_hex(hex: u32) -> (c: Color)
    ensures
        c == color_of(hex),
{
    let r = ((hex >> 16u32) & 0xffu32) as u8;
    let g = ((hex >> 8u32) & 0xffu32) as u8;
    let b = (hex & 0xffu32) as u8;
    assert(((hex >> 16u32) & 0xffu32) == (hex / 0x10000) % 0x100) by (bit_vector);
    assert(((hex >> 8u32) & 0xffu32) == (hex / 0x100) % 0x100) by (bit_vector);
    assert((hex & 0xffu32) == hex % 0x100) by (bit_vector);
    Color { r, g, b }
}

/// Orange of the route column.
pub const ROUTE_ORANGE: u32 = 0xffa600;

/// Grey of the sign's lettering.
pub const SIGN_GREY: u32 = 0x565a5c;

/// White of the countdown column.
pub const COUNTDOWN_WHITE: u32 = 0xffffff;

/// Black, the colour of a cleared panel.
pub const BLACK: u32 = 0x000000;

} // verus!
