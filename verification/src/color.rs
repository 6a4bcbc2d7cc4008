use vstd::prelude::*;

verus! {

/// An opaque colour given by its red, green and blue channels.
#[derive(Clone, Copy, Debug, PartialEq, Eq, Structural)]
pub struct Rgb {
    pub r: u8,
    pub g: u8,
    pub b: u8,
}

impl Rgb {
    /// Builds a colour from its three channels.
    pub fn from_rgb(r: u8, g: u8, b: u8) -> (c: Rgb)
        ensures
            c == (Rgb { r, g, b }),
    {
        Rgb { r, g, b }
    }

    /// Opaque white.
    pub fn white() -> (c: Rgb)
        ensures
            c == (Rgb { r: 255, g: 255, b: 255 }),
    {
        Rgb::from_rgb(255, 255, 255)
    }

    /// Opaque dark blue.
    pub fn dark_blue() -> (c: Rgb)
        ensures
            c == (Rgb { r: 0, g: 0, b: 0x8B }),
    {
        Rgb::from_rgb(0, 0, 0x8B)
    }
}

/// The colour written as one integer `0xRRGGBB`.
pub open spec fn packed(c: Rgb) -> int {
    c.r * 65536 + c.g * 256 + c.b
}

/// The colour that the integer `0xRRGGBB` stands for; integers outside
/// `0..=0xFFFFFF` stand for none.
pub open spec fn unpacked(v: int) -> Option<Rgb> {
    if 0 <= v < 0x1000000 {
        Some(Rgb { r: (v / 65536) as u8, g: ((v % 65536) / 256) as u8, b: (v % 256) as u8 })
    } else {
        None
    }
}

impl Rgb {
    /// Splits the integer `0xRRGGBB` into its channels; fails on integers
    /// outside `0..=0xFFFFFF`, whose channels do not fit a byte.
    pub fn from_packed(v: i64) -> (c: Option<Rgb>)
        ensures
            c == unpacked(v as int),
    {
        if 0 <= v && v < 0x1000000 {
            let r = (v / 65536) as u8;
            let g = ((v % 65536) / 256) as u8;
            let b = (v % 256) as u8;
            Some(Rgb::from_rgb(r, g, b))
        } else {
            None
        }
    }
}

/// Unpacking a colour gives back channels that pack to the same integer.
pub proof fn lemma_unpack_then_pack(v: int)
    requires
        unpacked(v) is Some,
    ensures
        packed(unpacked(v)->0) == v,
{
    let c = unpacked(v)->0;
    assert(c.r == v / 65536 && c.g == (v % 65536) / 256 && c.b == v % 256) by (nonlinear_arith)
        requires
            0 <= v < 0x1000000,
            c.r == (v / 65536) as u8,
            c.g == ((v % 65536) / 256) as u8,
            c.b == (v % 256) as u8,
    ;
    assert(v == (v / 65536) * 65536 + ((v % 65536) / 256) * 256 + v % 256) by (nonlinear_arith)
        requires
            0 <= v,
    ;
}

/// Packing a colour into one integer and unpacking it gives the colour back.
pub proof fn lemma_pack_then_unpack(c: Rgb)
    ensures
        unpacked(packed(c)) == Some(c),
{
    let v = packed(c);
    assert(v / 65536 == c.r && (v % 65536) / 256 == c.g && v % 256 == c.b) by (nonlinear_arith)
        requires
            v == c.r * 65536 + c.g * 256 + c.b,
            0 <= c.r < 256,
            0 <= c.g < 256,
            0 <= c.b < 256,
    ;
}

} // verus!
