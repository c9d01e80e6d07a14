//! Header of a `tim` file

use vstd::prelude::*;
use crate::bpp::BitsPerPixel;
use crate::le::{le_u32, read_u32_at, u32_le_bytes};

verus! {

/// Error type for [`Header::deserialize_bytes`]
#[derive(PartialEq, Eq, Clone, Copy, Debug, Structural)]
pub enum DeserializeBytesError {
    /// Invalid tag
    InvalidTag(u8),
    /// Invalid version
    InvalidVersion(u8),
    /// Unknown flag
    UnknownFlag(u32),
}

/// Header
#[derive(PartialEq, Eq, Clone, Copy, Debug, Structural)]
pub struct Header {
    /// Bits per pixel
    pub bpp: BitsPerPixel,
    /// Clut present
    pub clut_present: bool,
}

/// The bpp that the two low bits of the flags select.
pub open spec fn bpp_of_bits(bits: int) -> BitsPerPixel {
    if bits == 0 {
        BitsPerPixel::Index4Bit
    } else if bits == 1 {
        BitsPerPixel::Index8Bit
    } else if bits == 2 {
        BitsPerPixel::Color16Bit
    } else {
        BitsPerPixel::Color24Bit
    }
}

/// The two flag bits that select `bpp`.
pub open spec fn bits_of_bpp(bpp: BitsPerPixel) -> int {
    match bpp {
        BitsPerPixel::Index4Bit => 0,
        BitsPerPixel::Index8Bit => 1,
        BitsPerPixel::Color16Bit => 2,
        BitsPerPixel::Color24Bit => 3,
    }
}

/// Whether a flags word is known: only bits 0, 1 (the bpp) and 3 (a clut
/// follows) may be set.
pub open spec fn flags_known(flags: int) -> bool {
    0 <= flags < 16 && (flags / 4) % 2 == 0
}

/// The flags word that describes `header`.
pub open spec fn flags_of(header: Header) -> int {
    bits_of_bpp(header.bpp) + if header.clut_present { 8int } else { 0int }
}

impl Header {
    /// What the 8 header bytes `b` hold: the tag `0x10`, the version `0x0`,
    /// two unused bytes and the little-endian flags word.
    pub open spec fn spec_deserialize(b: Seq<u8>) -> Result<Header, DeserializeBytesError> {
        if b[0] != 0x10 {
            Err(DeserializeBytesError::InvalidTag(b[0]))
        } else if b[1] != 0 {
            Err(DeserializeBytesError::InvalidVersion(b[1]))
        } else if !flags_known(le_u32(b, 4)) {
            Err(DeserializeBytesError::UnknownFlag(le_u32(b, 4) as u32))
        } else {
            Ok(Header { bpp: bpp_of_bits(le_u32(b, 4) % 4), clut_present: le_u32(b, 4) >= 8 })
        }
    }

    /// The 8 bytes that serializing `self` over `prev` leaves: tag, version,
    /// the two unused bytes of `prev`, and the flags word.
    pub open spec fn spec_serialize(self, prev: Seq<u8>) -> Seq<u8> {
        seq![0x10u8, 0u8, prev[2], prev[3], flags_of(self) as u8, 0u8, 0u8, 0u8]
    }

    /// Deserializes the 8 header bytes of a `tim` file
    pub fn deserialize_bytes(bytes: &[u8; 8]) -> (res: Result<Self, DeserializeBytesError>)
        ensures
            res == Self::spec_deserialize(bytes@),
    {
        assert(bytes@.subrange(0, 8) =~= bytes@);
        Self::deserialize_at(bytes.as_slice(), 0)
    }

    /// Deserializes the 8 header bytes at `bytes[pos..pos + 8]`.
    pub(crate) fn deserialize_at(bytes: &[u8], pos: usize) -> (res: Result<Self, DeserializeBytesError>)
        requires
            pos + 8 <= bytes@.len(),
        ensures
            res == Self::spec_deserialize(bytes@.subrange(pos as int, pos + 8)),
    {
        let ghost b = bytes@.subrange(pos as int, pos + 8);
        let tag = bytes[pos];
        if tag != 0x10 {
            return Err(DeserializeBytesError::InvalidTag(tag));
        }
        let version = bytes[pos + 1];
        if version != 0 {
            return Err(DeserializeBytesError::InvalidVersion(version));
        }
        let flags = read_u32_at(bytes, pos + 4);
        assert(flags == le_u32(b, 4));
        if flags >= 16 || (flags / 4) % 2 != 0 {
            return Err(DeserializeBytesError::UnknownFlag(flags));
        }
        let bpp = match flags % 4 {
            0 => BitsPerPixel::Index4Bit,
            1 => BitsPerPixel::Index8Bit,
            2 => BitsPerPixel::Color16Bit,
            _ => BitsPerPixel::Color24Bit,
        };
        Ok(Header { bpp, clut_present: flags >= 8 })
    }

    /// Serializes this header into 8 bytes, leaving the two unused bytes as
    /// they were.
    pub fn serialize_bytes(&self, bytes: &mut [u8; 8])
        ensures
            final(bytes)@ == self.spec_serialize(old(bytes)@),
    {
        bytes[0] = 0x10;
        bytes[1] = 0;
        let bpp: u32 = match self.bpp {
            BitsPerPixel::Index4Bit => 0,
            BitsPerPixel::Index8Bit => 1,
            BitsPerPixel::Color16Bit => 2,
            BitsPerPixel::Color24Bit => 3,
        };
        let clut_present: u32 = if self.clut_present { 8 } else { 0 };
        let flags = u32_le_bytes(bpp + clut_present);
        bytes[4] = flags[0];
        bytes[5] = flags[1];
        bytes[6] = flags[2];
        bytes[7] = flags[3];
        assert(bytes@ =~= self.spec_serialize(old(bytes)@));
    }
}

/// Reading back a serialized header gives the header that was written,
/// whatever the bytes held before.
pub proof fn lemma_serialize_deserialize(header: Header, prev: Seq<u8>)
    requires
        prev.len() == 8,
    ensures
        Header::spec_deserialize(header.spec_serialize(prev)) == Ok::<Header, DeserializeBytesError>(header),
{
    let b = header.spec_serialize(prev);
    assert(le_u32(b, 4) == flags_of(header));
}

/// Serializing a header that was read from `bytes`, over those bytes, gives
/// `bytes` back.
pub proof fn lemma_deserialize_serialize(bytes: Seq<u8>)
    requires
        bytes.len() == 8,
        Header::spec_deserialize(bytes) is Ok,
    ensures
        Header::spec_deserialize(bytes)->Ok_0.spec_serialize(bytes) == bytes,
{
    let h = Header::spec_deserialize(bytes)->Ok_0;
    let f = le_u32(bytes, 4);
    assert(bytes[5] == 0 && bytes[6] == 0 && bytes[7] == 0 && bytes[4] == f) by (nonlinear_arith)
        requires
            0 <= f < 16,
            f == bytes[4] + 256 * bytes[5] + 65536 * bytes[6] + 16777216 * bytes[7],
            0 <= bytes[4] < 256,
            0 <= bytes[5] < 256,
            0 <= bytes[6] < 256,
            0 <= bytes[7] < 256,
    ;
    assert(flags_of(h) == f);
    assert(h.spec_serialize(bytes) =~= bytes);
}

} // verus!
