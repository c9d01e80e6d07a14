//! Clut color

use vstd::prelude::*;
use int_conv::Split;

verus! {

/// Clut color
#[derive(PartialEq, Eq, Clone, Copy, Debug, Structural)]
pub struct Color {
    /// Red
    pub r: u8,
    /// Green
    pub g: u8,
    /// Blue
    pub b: u8,
    /// Stp
    pub stp: bool,
}

/// Splits `value` into its low and high byte with `int_conv::Split::lo_hi`,
/// which truncates `value` for the low byte and truncates `value >> 8` for the
/// high byte.
#[verifier::external_body]
fn lo_hi(value: u16) -> (res: (u8, u8))
    ensures
        res.0 == value % 256,
        res.1 == value / 256,
{
    Split::lo_hi(value)
}

impl Color {
    /// The color that the 16-bit word `value` encodes: bits `0..5` red,
    /// `5..10` green, `10..15` blue, each scaled from `0..32` to `0..256`,
    /// and bit 15 the stp flag.
    pub open spec fn spec_from_16bit(value: u16) -> Color {
        Color {
            r: ((value % 32) * 8) as u8,
            g: (((value / 32) % 32) * 8) as u8,
            b: (((value / 1024) % 32) * 8) as u8,
            stp: value / 32768 == 1,
        }
    }

    /// The two colors that three 16-bit words hold, as six bytes in
    /// little-endian order: `r1 g1 b1 r2 g2 b2`.
    pub open spec fn spec_from_24bit(value: [u16; 3]) -> (Color, Color) {
        (
            Color { r: (value[0] % 256) as u8, g: (value[0] / 256) as u8, b: (value[1] % 256) as u8, stp: false },
            Color { r: (value[1] / 256) as u8, g: (value[2] % 256) as u8, b: (value[2] / 256) as u8, stp: false },
        )
    }

    /// The rgba quadruple of `self`: alpha is 255 when stp is set, else 0.
    pub open spec fn spec_to_rgba(self) -> [u8; 4] {
        [self.r, self.g, self.b, if self.stp { 255u8 } else { 0u8 }]
    }

    /// Parses a color from a `u16`
    pub fn from_16bit(value: u16) -> (res: Self)
        ensures
            res == Self::spec_from_16bit(value),
    {
        let r = ((value % 32) * 8) as u8;
        let g = (((value / 32) % 32) * 8) as u8;
        let b = (((value / 1024) % 32) * 8) as u8;
        Color { r, g, b, stp: value / 32768 == 1 }
    }

    /// Parses two colors from a `[u16; 3]`
    pub fn from_24bit(value: [u16; 3]) -> (res: [Self; 2])
        ensures
            res[0] == Self::spec_from_24bit(value).0,
            res[1] == Self::spec_from_24bit(value).1,
    {
        let (r1, g1) = lo_hi(value[0]);
        let (b1, r2) = lo_hi(value[1]);
        let (g2, b2) = lo_hi(value[2]);
        [
            Color { r: r1, g: g1, b: b1, stp: false },
            Color { r: r2, g: g2, b: b2, stp: false },
        ]
    }

    /// Converts this color to a `[u8; 4]` rgba
    pub fn to_rgba(self) -> (res: [u8; 4])
        ensures
            res == self.spec_to_rgba(),
    {
        [self.r, self.g, self.b, if self.stp { 255 } else { 0 }]
    }
}

} // verus!

verus! {

/// A 16-bit color decodes field by field: the word whose bits `0..5`,
/// `5..10` and `10..15` hold `r`, `g` and `b` (each below 32) and whose bit
/// 15 is `stp` gives the channels `8 * r`, `8 * g`, `8 * b` and that stp
/// flag.
pub proof fn lemma_from_16bit_fields(r: u16, g: u16, b: u16, stp: bool)
    requires
        r < 32,
        g < 32,
        b < 32,
    ensures
        Color::spec_from_16bit((r + 32 * g + 1024 * b + if stp { 32768int } else { 0int }) as u16)
            == (Color { r: (8 * r) as u8, g: (8 * g) as u8, b: (8 * b) as u8, stp }),
{
    let s: int = if stp { 1 } else { 0 };
    let v: int = r + 32 * g + 1024 * b + 32768 * s;
    assert(v % 32 == r && (v / 32) % 32 == g && (v / 1024) % 32 == b && v / 32768 == s && v < 65536)
        by (nonlinear_arith)
        requires
            v == r + 32 * g + 1024 * b + 32768 * s,
            0 <= r < 32,
            0 <= g < 32,
            0 <= b < 32,
            0 <= s <= 1,
    {
        assert(v / 32 == g + 32 * b + 1024 * s);
        assert(v / 1024 == b + 32 * s);
    }
}

/// Two colors fill three little-endian 16-bit words byte by byte: the six
/// bytes `r1 g1 b1 r2 g2 b2` give the colors `(r1, g1, b1)` and
/// `(r2, g2, b2)`, neither with stp set.
pub proof fn lemma_from_24bit_bytes(r1: u8, g1: u8, b1: u8, r2: u8, g2: u8, b2: u8)
    ensures
        Color::spec_from_24bit([(r1 + 256 * g1) as u16, (b1 + 256 * r2) as u16, (g2 + 256 * b2) as u16])
            == ((Color { r: r1, g: g1, b: b1, stp: false }, Color { r: r2, g: g2, b: b2, stp: false })),
{
    assert(((r1 + 256 * g1) as u16) % 256 == r1 && ((r1 + 256 * g1) as u16) / 256 == g1) by (nonlinear_arith)
        requires 0 <= r1 < 256, 0 <= g1 < 256;
    assert(((b1 + 256 * r2) as u16) % 256 == b1 && ((b1 + 256 * r2) as u16) / 256 == r2) by (nonlinear_arith)
        requires 0 <= b1 < 256, 0 <= r2 < 256;
    assert(((g2 + 256 * b2) as u16) % 256 == g2 && ((g2 + 256 * b2) as u16) / 256 == b2) by (nonlinear_arith)
        requires 0 <= g2 < 256, 0 <= b2 < 256;
}

} // verus!
