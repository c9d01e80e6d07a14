//! Color lookup table of a `tim` file

use vstd::prelude::*;
use crate::color::Color;
use crate::img::{color16_at, remaining};
use crate::le::{le_u16, read_u16_at};

verus! {

/// Header of a color lookup table
#[derive(PartialEq, Eq, Clone, Copy, Debug)]
pub struct Header {
    /// Position
    pub pos: [u16; 2],
    /// Size
    pub size: [u16; 2],
}

impl Header {
    /// What the 12 bytes `b` hold: a length that is not kept, then the
    /// little-endian x, y, width and height.
    pub open spec fn spec_from_bytes(b: Seq<u8>) -> Header {
        Header {
            pos: [le_u16(b, 4) as u16, le_u16(b, 6) as u16],
            size: [le_u16(b, 8) as u16, le_u16(b, 10) as u16],
        }
    }

    /// The number of colors a table of this size holds.
    pub open spec fn spec_colors_len(self) -> int {
        self.size[0] * self.size[1]
    }

    /// Returns the total number of colors
    pub fn colors_len(self) -> (res: usize)
        ensures
            res == self.spec_colors_len(),
    {
        let width = self.size[0] as usize;
        let height = self.size[1] as usize;
        assert(width * height <= 65535 * 65535) by (nonlinear_arith)
            requires width <= 65535, height <= 65535;
        width * height
    }

    /// Deserializes the 12 bytes of a clut header
    pub fn from_bytes(bytes: &[u8; 12]) -> (res: Self)
        ensures
            res == Self::spec_from_bytes(bytes@),
    {
        assert(bytes@.subrange(0, 12) =~= bytes@);
        Self::from_bytes_at(bytes.as_slice(), 0)
    }

    /// Deserializes the 12 header bytes at `bytes[pos..pos + 12]`.
    pub(crate) fn from_bytes_at(bytes: &[u8], pos: usize) -> (res: Self)
        requires
            pos + 12 <= bytes@.len(),
        ensures
            res == Self::spec_from_bytes(bytes@.subrange(pos as int, pos + 12)),
    {
        let ghost b = bytes@.subrange(pos as int, pos + 12);
        // The slice's length bounds the positions read below
        let _len = bytes.len();
        let x = read_u16_at(bytes, pos + 4);
        let y = read_u16_at(bytes, pos + 6);
        let width = read_u16_at(bytes, pos + 8);
        let height = read_u16_at(bytes, pos + 10);
        assert(x == le_u16(b, 4) && y == le_u16(b, 6));
        assert(width == le_u16(b, 8) && height == le_u16(b, 10));
        Header { pos: [x, y], size: [width, height] }
    }
}

/// Error type for [`Clut::deserialize`]
#[derive(PartialEq, Eq, Clone, Copy, Debug, Structural)]
pub enum DeserializeError {
    /// Unable to read header
    ReadHeader,
    /// Unable to read colors
    ReadColors,
}

/// Color lookup table
#[derive(PartialEq, Eq, Clone, Debug)]
pub struct Clut {
    /// Header
    pub header: Header,
    /// Colors
    pub colors: Vec<Color>,
}

/// A color lookup table, its colors as a sequence.
pub ghost struct ClutView {
    /// Header
    pub header: Header,
    /// Colors
    pub colors: Seq<Color>,
}

impl View for Clut {
    type V = ClutView;

    open spec fn view(&self) -> ClutView {
        ClutView { header: self.header, colors: self.colors@ }
    }
}

/// The color lookup table at `s[pos..]`, with the position after it: a 12-byte
/// header, then `width * height` 16-bit colors.
pub open spec fn spec_clut(s: Seq<u8>, pos: int) -> Result<(ClutView, int), DeserializeError> {
    if remaining(s, pos) < 12 {
        Err(DeserializeError::ReadHeader)
    } else {
        let header = Header::spec_from_bytes(s.subrange(pos, pos + 12));
        let n = header.spec_colors_len();
        if remaining(s, pos) < 12 + 2 * n {
            Err(DeserializeError::ReadColors)
        } else {
            Ok((ClutView { header, colors: Seq::new(n as nat, |i: int| color16_at(s, pos + 12, i)) }, pos + 12 + 2 * n))
        }
    }
}

impl Clut {
    /// Deserializes the clut table at `bytes[pos..]`, returning it with the
    /// position after it.
    pub fn deserialize(bytes: &[u8], pos: usize) -> (res: Result<(Self, usize), DeserializeError>)
        ensures
            match res {
                Ok((clut, end)) => spec_clut(bytes@, pos as int) == Ok::<(ClutView, int), DeserializeError>((clut@, end as int)),
                Err(e) => spec_clut(bytes@, pos as int) == Err::<(ClutView, int), DeserializeError>(e),
            },
    {
        let len = bytes.len();
        if pos > len || len - pos < 12 {
            return Err(DeserializeError::ReadHeader);
        }
        let header = Header::from_bytes_at(bytes, pos);
        let n = header.colors_len();
        if n > (len - pos - 12) / 2 {
            return Err(DeserializeError::ReadColors);
        }
        let ghost s = bytes@;
        let start = pos + 12;
        let mut colors: Vec<Color> = Vec::new();
        let mut i: usize = 0;
        while i < n
            invariant
                s == bytes@,
                len == s.len(),
                start + 2 * n <= len,
                i <= n,
                colors@ =~= Seq::new(i as nat, |j: int| color16_at(s, start as int, j)),
            decreases n - i,
        {
            let value = read_u16_at(bytes, start + 2 * i);
            colors.push(Color::from_16bit(value));
            i = i + 1;
        }
        Ok((Clut { header, colors }, start + 2 * n))
    }
}

} // verus!
