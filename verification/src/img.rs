//! Image block of a `tim` file

use vstd::prelude::*;
use crate::bpp::BitsPerPixel;
use crate::color::Color;
use crate::le::{
    le_u16, le_u16_bytes, le_u32, le_u32_bytes, lemma_le_u16_bytes, lemma_le_u16_unique, lemma_le_u32_bytes,
    lemma_le_u32_unique, read_u16_at, read_u32_at, u16_le_bytes, u32_le_bytes,
};

verus! {

/// Header of an image block
#[derive(PartialEq, Eq, Clone, Copy, Debug)]
pub struct Header {
    /// Length
    pub length: usize,
    /// Position
    pub pos: [u16; 2],
    /// Size
    pub size: [u16; 2],
}

impl Header {
    /// What the 12 bytes `b` hold: the little-endian length, x, y, width and
    /// height.
    pub open spec fn spec_from_bytes(b: Seq<u8>) -> Header {
        Header {
            length: le_u32(b, 0) as usize,
            pos: [le_u16(b, 4) as u16, le_u16(b, 6) as u16],
            size: [le_u16(b, 8) as u16, le_u16(b, 10) as u16],
        }
    }

    /// Deserializes the 12 bytes of an image header
    pub fn from_bytes(bytes: &[u8; 12]) -> (res: Self)
        ensures
            res == Self::spec_from_bytes(bytes@),
    {
        assert(bytes@.subrange(0, 12) =~= bytes@);
        Self::from_bytes_at(bytes.as_slice(), 0)
    }

    /// Deserializes the 12 header bytes at `bytes[pos..pos + 12]`.
    pub(crate) fn from_bytes_at(bytes: &[u8], pos: usize) -> (res: Self)
        requires
            pos + 12 <= bytes@.len(),
        ensures
            res == Self::spec_from_bytes(bytes@.subrange(pos as int, pos + 12)),
    {
        let ghost b = bytes@.subrange(pos as int, pos + 12);
        // The slice's length bounds the positions read below
        let _len = bytes.len();
        let length = read_u32_at(bytes, pos);
        let x = read_u16_at(bytes, pos + 4);
        let y = read_u16_at(bytes, pos + 6);
        let width = read_u16_at(bytes, pos + 8);
        let height = read_u16_at(bytes, pos + 10);
        assert(length == le_u32(b, 0));
        assert(x == le_u16(b, 4) && y == le_u16(b, 6));
        assert(width == le_u16(b, 8) && height == le_u16(b, 10));
        Header { length: length as usize, pos: [x, y], size: [width, height] }
    }

    /// The 12 bytes that describe `self`, each field little-endian.
    pub open spec fn spec_to_bytes(self) -> Seq<u8> {
        le_u32_bytes(self.length as int) + le_u16_bytes(self.pos[0] as int) + le_u16_bytes(self.pos[1] as int)
            + le_u16_bytes(self.size[0] as int) + le_u16_bytes(self.size[1] as int)
    }

    /// Serializes this header into 12 bytes
    pub fn to_bytes(&self, bytes: &mut [u8; 12])
        requires
            self.length <= u32::MAX,
        ensures
            final(bytes)@ == self.spec_to_bytes(),
    {
        let length = u32_le_bytes(self.length as u32);
        let x = u16_le_bytes(self.pos[0]);
        let y = u16_le_bytes(self.pos[1]);
        let width = u16_le_bytes(self.size[0]);
        let height = u16_le_bytes(self.size[1]);
        bytes[0] = length[0];
        bytes[1] = length[1];
        bytes[2] = length[2];
        bytes[3] = length[3];
        bytes[4] = x[0];
        bytes[5] = x[1];
        bytes[6] = y[0];
        bytes[7] = y[1];
        bytes[8] = width[0];
        bytes[9] = width[1];
        bytes[10] = height[0];
        bytes[11] = height[1];
        assert(bytes@ =~= self.spec_to_bytes());
    }
}

/// Reading back the bytes that an image header serializes to gives the
/// header.
pub proof fn lemma_to_bytes_from_bytes(header: Header)
    requires
        header.length <= u32::MAX,
    ensures
        Header::spec_from_bytes(header.spec_to_bytes()) == header,
{
    let b = header.spec_to_bytes();
    lemma_le_u32_bytes(header.length as int);
    lemma_le_u16_bytes(header.pos[0] as int);
    lemma_le_u16_bytes(header.pos[1] as int);
    lemma_le_u16_bytes(header.size[0] as int);
    lemma_le_u16_bytes(header.size[1] as int);
    assert(b.subrange(0, 4) =~= le_u32_bytes(header.length as int));
    assert(b.subrange(4, 6) =~= le_u16_bytes(header.pos[0] as int));
    assert(b.subrange(6, 8) =~= le_u16_bytes(header.pos[1] as int));
    assert(b.subrange(8, 10) =~= le_u16_bytes(header.size[0] as int));
    assert(b.subrange(10, 12) =~= le_u16_bytes(header.size[1] as int));
    assert(le_u32(b, 0) == le_u32(b.subrange(0, 4), 0));
    assert(le_u16(b, 4) == le_u16(b.subrange(4, 6), 0));
    assert(le_u16(b, 6) == le_u16(b.subrange(6, 8), 0));
    assert(le_u16(b, 8) == le_u16(b.subrange(8, 10), 0));
    assert(le_u16(b, 10) == le_u16(b.subrange(10, 12), 0));
    assert(Header::spec_from_bytes(b).pos =~= header.pos);
    assert(Header::spec_from_bytes(b).size =~= header.size);
}

/// Serializing an image header read from 12 bytes gives those bytes back.
pub proof fn lemma_from_bytes_to_bytes(bytes: Seq<u8>)
    requires
        bytes.len() == 12,
    ensures
        Header::spec_from_bytes(bytes).length <= u32::MAX,
        Header::spec_from_bytes(bytes).spec_to_bytes() == bytes,
{
    lemma_le_u32_unique(bytes, 0);
    lemma_le_u16_unique(bytes, 4);
    lemma_le_u16_unique(bytes, 6);
    lemma_le_u16_unique(bytes, 8);
    lemma_le_u16_unique(bytes, 10);
    assert(Header::spec_from_bytes(bytes).spec_to_bytes() =~= bytes);
}

/// All pixels within an image
#[derive(PartialEq, Eq, Clone, Debug)]
pub enum Pixels {
    /// 4-bit indexed
    Index4Bit(Vec<usize>),
    /// 8-bit indexed
    Index8Bit(Vec<usize>),
    /// 16-bit color
    Color16Bit(Vec<Color>),
    /// 24-bit color
    Color24Bit(Vec<Color>),
}

/// The pixels of an image as sequences.
pub ghost enum PixelsView {
    /// 4-bit indexes
    Index4Bit(Seq<usize>),
    /// 8-bit indexes
    Index8Bit(Seq<usize>),
    /// 16-bit colors
    Color16Bit(Seq<Color>),
    /// 24-bit colors
    Color24Bit(Seq<Color>),
}

impl View for Pixels {
    type V = PixelsView;

    open spec fn view(&self) -> PixelsView {
        match self {
            Pixels::Index4Bit(v) => PixelsView::Index4Bit(v@),
            Pixels::Index8Bit(v) => PixelsView::Index8Bit(v@),
            Pixels::Color16Bit(v) => PixelsView::Color16Bit(v@),
            Pixels::Color24Bit(v) => PixelsView::Color24Bit(v@),
        }
    }
}

impl PixelsView {
    /// The bpp of these pixels
    pub open spec fn bpp(self) -> BitsPerPixel {
        match self {
            PixelsView::Index4Bit(_) => BitsPerPixel::Index4Bit,
            PixelsView::Index8Bit(_) => BitsPerPixel::Index8Bit,
            PixelsView::Color16Bit(_) => BitsPerPixel::Color16Bit,
            PixelsView::Color24Bit(_) => BitsPerPixel::Color24Bit,
        }
    }
}

/// How many bytes follow `pos` in `s` (none when `pos` lies past the end).
pub open spec fn remaining(s: Seq<u8>, pos: int) -> int {
    if pos <= s.len() { s.len() - pos } else { 0 }
}

/// The smaller of `a` and `b`.
pub open spec fn min(a: int, b: int) -> int {
    if a <= b { a } else { b }
}

/// The `i`-th 4-bit index of the bytes from `pos`: each byte holds two, the
/// low nibble first.
pub open spec fn nibble_at(s: Seq<u8>, pos: int, i: int) -> usize {
    if i % 2 == 0 {
        (s[pos + i / 2] % 16) as usize
    } else {
        (s[pos + i / 2] / 16) as usize
    }
}

/// The `i`-th 24-bit color of the bytes from `pos`: each color is three
/// bytes, red, green, blue.
pub open spec fn color24_at(s: Seq<u8>, pos: int, i: int) -> Color {
    Color { r: s[pos + 3 * i], g: s[pos + 3 * i + 1], b: s[pos + 3 * i + 2], stp: false }
}

/// The `i`-th 16-bit color of the bytes from `pos`.
pub open spec fn color16_at(s: Seq<u8>, pos: int, i: int) -> Color {
    Color::spec_from_16bit(le_u16(s, pos + 2 * i) as u16)
}

/// The pixels that `len` bytes of pixel data at `s[pos..]` hold, in the
/// format `bpp`, with the position after them.
///
/// Indexed pixels take the bytes that there are, up to `len`. Colors are read
/// whole: `len / 2` 16-bit colors, or `len / 3` groups of three 16-bit words
/// that hold two 24-bit colors each; `None` when the bytes run out first.
pub open spec fn spec_pixels(s: Seq<u8>, pos: int, len: int, bpp: BitsPerPixel) -> Option<(PixelsView, int)> {
    let k = min(len, remaining(s, pos));
    match bpp {
        BitsPerPixel::Index4Bit => Some((PixelsView::Index4Bit(Seq::new((2 * k) as nat, |i: int| nibble_at(s, pos, i))), pos + k)),
        BitsPerPixel::Index8Bit => Some((PixelsView::Index8Bit(Seq::new(k as nat, |i: int| s[pos + i] as usize)), pos + k)),
        BitsPerPixel::Color16Bit => {
            let m = len / 2;
            if 2 * m <= remaining(s, pos) {
                Some((PixelsView::Color16Bit(Seq::new(m as nat, |i: int| color16_at(s, pos, i))), pos + 2 * m))
            } else {
                None
            }
        },
        BitsPerPixel::Color24Bit => {
            let m = len / 3;
            if 6 * m <= remaining(s, pos) {
                Some((PixelsView::Color24Bit(Seq::new((2 * m) as nat, |i: int| color24_at(s, pos, i))), pos + 6 * m))
            } else {
                None
            }
        },
    }
}

impl Pixels {
    /// Deserializes the `pixels_len` bytes of pixel data at `bytes[pos..]`,
    /// returning the pixels and the position after them.
    pub(crate) fn deserialize(bytes: &[u8], pos: usize, pixels_len: usize, bpp: BitsPerPixel) -> (res: Option<(Self, usize)>)
        ensures
            match res {
                Some((pixels, end)) => spec_pixels(bytes@, pos as int, pixels_len as int, bpp) == Some((pixels@, end as int)),
                None => spec_pixels(bytes@, pos as int, pixels_len as int, bpp) is None,
            },
    {
        let len = bytes.len();
        let rem = if pos <= len { len - pos } else { 0 };
        let k = if pixels_len <= rem { pixels_len } else { rem };
        let ghost s = bytes@;
        match bpp {
            BitsPerPixel::Index4Bit => {
                let mut idxs: Vec<usize> = Vec::new();
                let mut i: usize = 0;
                while i < k
                    invariant
                        s == bytes@,
                        len == s.len(),
                        k <= remaining(s, pos as int),
                        i <= k,
                        idxs@ =~= Seq::new((2 * i) as nat, |j: int| nibble_at(s, pos as int, j)),
                    decreases k - i,
                {
                    let value = bytes[pos + i];
                    idxs.push((value % 16) as usize);
                    idxs.push((value / 16) as usize);
                    i = i + 1;
                }
                Some((Pixels::Index4Bit(idxs), pos + k))
            },
            BitsPerPixel::Index8Bit => {
                let mut idxs: Vec<usize> = Vec::new();
                let mut i: usize = 0;
                while i < k
                    invariant
                        s == bytes@,
                        len == s.len(),
                        k <= remaining(s, pos as int),
                        i <= k,
                        idxs@ =~= Seq::new(i as nat, |j: int| s[pos + j] as usize),
                    decreases k - i,
                {
                    idxs.push(bytes[pos + i] as usize);
                    i = i + 1;
                }
                Some((Pixels::Index8Bit(idxs), pos + k))
            },
            BitsPerPixel::Color16Bit => {
                let m = pixels_len / 2;
                if m > rem / 2 {
                    return None;
                }
                let mut colors: Vec<Color> = Vec::new();
                let mut i: usize = 0;
                while i < m
                    invariant
                        s == bytes@,
                        len == s.len(),
                        2 * m <= remaining(s, pos as int),
                        i <= m,
                        colors@ =~= Seq::new(i as nat, |j: int| color16_at(s, pos as int, j)),
                    decreases m - i,
                {
                    let value = read_u16_at(bytes, pos + 2 * i);
                    colors.push(Color::from_16bit(value));
                    i = i + 1;
                }
                Some((Pixels::Color16Bit(colors), pos + 2 * m))
            },
            BitsPerPixel::Color24Bit => {
                let m = pixels_len / 3;
                if m > rem / 6 {
                    return None;
                }
                let mut colors: Vec<Color> = Vec::new();
                let mut i: usize = 0;
                while i < m
                    invariant
                        s == bytes@,
                        len == s.len(),
                        6 * m <= remaining(s, pos as int),
                        i <= m,
                        colors@ =~= Seq::new((2 * i) as nat, |j: int| color24_at(s, pos as int, j)),
                    decreases m - i,
                {
                    let p = pos + 6 * i;
                    let v0 = read_u16_at(bytes, p);
                    let v1 = read_u16_at(bytes, p + 2);
                    let v2 = read_u16_at(bytes, p + 4);
                    proof {
                        lemma_le_u16_unique(s, p as int);
                        lemma_le_u16_unique(s, p + 2);
                        lemma_le_u16_unique(s, p + 4);
                    }
                    let pair = Color::from_24bit([v0, v1, v2]);
                    colors.push(pair[0]);
                    colors.push(pair[1]);
                    i = i + 1;
                }
                Some((Pixels::Color24Bit(colors), pos + 6 * m))
            },
        }
    }

    /// Returns the bpp associated with these pixels
    pub fn bpp(&self) -> (res: BitsPerPixel)
        ensures
            res == self@.bpp(),
    {
        match self {
            Pixels::Index4Bit(_) => BitsPerPixel::Index4Bit,
            Pixels::Index8Bit(_) => BitsPerPixel::Index8Bit,
            Pixels::Color16Bit(_) => BitsPerPixel::Color16Bit,
            Pixels::Color24Bit(_) => BitsPerPixel::Color24Bit,
        }
    }

    /// Returns if these pixels are indexed
    pub fn is_indexed(&self) -> (res: bool)
        ensures
            res == self@.bpp().spec_is_indexed(),
    {
        self.bpp().is_indexed()
    }
}

/// Error type for [`Img::deserialize`]
#[derive(PartialEq, Eq, Clone, Copy, Debug, Structural)]
pub enum DeserializeError {
    /// Unable to read header
    ReadHeader,
    /// Image size didn't match pixels
    SizePixelsMismatch { width: u16, height: u16, bpp: BitsPerPixel, pixels_len: usize },
    /// Unable to read colors
    ReadColors,
}

/// Image
#[derive(PartialEq, Eq, Clone, Debug)]
pub struct Img {
    /// Header
    pub header: Header,
    /// Pixels
    pub pixels: Pixels,
}

/// An image, its pixels as sequences.
pub ghost struct ImgView {
    /// Header
    pub header: Header,
    /// Pixels
    pub pixels: PixelsView,
}

impl View for Img {
    type V = ImgView;

    open spec fn view(&self) -> ImgView {
        ImgView { header: self.header, pixels: self.pixels@ }
    }
}

/// The length of the pixel data that an image block of `length` bytes
/// holds: the length less the 12 header bytes, wrapping below 12 as a
/// release build of unsigned subtraction does.
pub open spec fn pixels_len_of(length: usize) -> usize {
    if length >= 12 { (length - 12) as usize } else { (length - 12 + usize::MAX + 1) as usize }
}

/// The image block at `s[pos..]` whose pixels are in the format `bpp`, with the
/// position after it.
///
/// Its 12-byte header gives the block's length and the image's size in 16-bit
/// units; the pixel data, the rest of the block, must be exactly
/// `width * height * 2` bytes long.
pub open spec fn spec_img(s: Seq<u8>, pos: int, bpp: BitsPerPixel) -> Result<(ImgView, int), DeserializeError> {
    if remaining(s, pos) < 12 {
        Err(DeserializeError::ReadHeader)
    } else {
        let header = Header::spec_from_bytes(s.subrange(pos, pos + 12));
        let pixels_len = pixels_len_of(header.length);
        let width = header.size[0];
        let height = header.size[1];
        if pixels_len != width * height * 2 {
            Err(DeserializeError::SizePixelsMismatch { width, height, bpp, pixels_len })
        } else {
            match spec_pixels(s, pos + 12, pixels_len as int, bpp) {
                None => Err(DeserializeError::ReadColors),
                Some((pixels, end)) => Ok((ImgView { header, pixels }, end)),
            }
        }
    }
}

impl Img {
    /// Deserializes the image block at `bytes[pos..]` whose pixels are in the
    /// format `bpp`, returning it with the position after it.
    pub fn deserialize(bytes: &[u8], pos: usize, bpp: BitsPerPixel) -> (res: Result<(Self, usize), DeserializeError>)
        ensures
            match res {
                Ok((img, end)) => spec_img(bytes@, pos as int, bpp) == Ok::<(ImgView, int), DeserializeError>((img@, end as int)),
                Err(e) => spec_img(bytes@, pos as int, bpp) == Err::<(ImgView, int), DeserializeError>(e),
            },
    {
        let len = bytes.len();
        if pos > len || len - pos < 12 {
            return Err(DeserializeError::ReadHeader);
        }
        let header = Header::from_bytes_at(bytes, pos);

        // The unscaled width is the one that the length is checked against
        let pixels_len = header.length.wrapping_sub(12);
        let width = header.size[0];
        let height = header.size[1];
        assert((width as u64) * (height as u64) * 2 <= 2 * 65535 * 65535) by (nonlinear_arith)
            requires width <= 65535, height <= 65535;
        if (pixels_len as u64) != (width as u64) * (height as u64) * 2 {
            return Err(DeserializeError::SizePixelsMismatch { width, height, bpp, pixels_len });
        }

        match Pixels::deserialize(bytes, pos + 12, pixels_len, bpp) {
            None => Err(DeserializeError::ReadColors),
            Some((pixels, end)) => Ok((Img { header, pixels }, end)),
        }
    }

    /// Returns if this image is indexed
    pub fn is_indexed(&self) -> (res: bool)
        ensures
            res == self@.pixels.bpp().spec_is_indexed(),
    {
        self.pixels.is_indexed()
    }
}

} // verus!

verus! {

/// The image header's fields read from `s` at `pos`: the little-endian
/// length, x, y, width and height.
proof fn lemma_header_fields(s: Seq<u8>, pos: int)
    requires
        0 <= pos,
        pos + 12 <= s.len(),
    ensures
        ({
            let header = Header::spec_from_bytes(s.subrange(pos, pos + 12));
            &&& header.length == le_u32(s, pos)
            &&& header.size[0] == le_u16(s, pos + 8)
            &&& header.size[1] == le_u16(s, pos + 10)
            &&& le_u32(s, pos) <= u32::MAX
        }),
{
    let b = s.subrange(pos, pos + 12);
    assert(b[0] == s[pos] && b[1] == s[pos + 1] && b[2] == s[pos + 2] && b[3] == s[pos + 3]);
    assert(b[8] == s[pos + 8] && b[9] == s[pos + 9] && b[10] == s[pos + 10] && b[11] == s[pos + 11]);
}

/// An image block whose pixel data (the block's length less its 12 header
/// bytes) is exactly `width * height * 2` bytes, all of them present, reads
/// whole in the 4-bit, 8-bit and 16-bit formats: it ends where its length
/// says, keeps the width and height, and has `4`, `2` or `1` pixels per 16-bit
/// unit of its `width * height`, taken from the pixel data: a 4-bit index is the
/// low, then the high nibble of its byte, an 8-bit index is its byte, and a
/// 16-bit color is its little-endian word.
pub proof fn lemma_img_exact_size(s: Seq<u8>, pos: int, bpp: BitsPerPixel)
    requires
        0 <= pos,
        !(bpp is Color24Bit),
        12 <= le_u32(s, pos),
        pos + le_u32(s, pos) <= s.len(),
        le_u32(s, pos) - 12 == 2 * (le_u16(s, pos + 8) * le_u16(s, pos + 10)),
    ensures
        ({
            let n = le_u16(s, pos + 8) * le_u16(s, pos + 10);
            let data = pos + 12;
            let (img, end) = spec_img(s, pos, bpp)->Ok_0;
            &&& spec_img(s, pos, bpp) is Ok
            &&& end == pos + le_u32(s, pos)
            &&& img.header.size[0] == le_u16(s, pos + 8)
            &&& img.header.size[1] == le_u16(s, pos + 10)
            &&& img.pixels.bpp() == bpp
            &&& match img.pixels {
                PixelsView::Index4Bit(idxs) => idxs.len() == 4 * n && forall|j: int| 0 <= j < idxs.len() ==>
                    #[trigger] idxs[j] == (if j % 2 == 0 { s[data + j / 2] % 16 } else { s[data + j / 2] / 16 }),
                PixelsView::Index8Bit(idxs) => idxs.len() == 2 * n && forall|j: int| 0 <= j < idxs.len() ==>
                    #[trigger] idxs[j] == s[data + j],
                PixelsView::Color16Bit(colors) => colors.len() == n && forall|j: int| 0 <= j < colors.len() ==>
                    #[trigger] colors[j] == Color::spec_from_16bit((s[data + 2 * j] + 256 * s[data + 2 * j + 1]) as u16),
                PixelsView::Color24Bit(_) => false,
            }
        }),
{
    lemma_header_fields(s, pos);
    let n = le_u16(s, pos + 8) * le_u16(s, pos + 10);
    let header = Header::spec_from_bytes(s.subrange(pos, pos + 12));
    assert(pixels_len_of(header.length) == 2 * n);
    assert(header.size[0] * header.size[1] == n);
    assert(remaining(s, pos + 12) >= 2 * n);
    assert(min(2 * n, remaining(s, pos + 12)) == 2 * n);
}

/// An image block whose pixel data (the block's length, at least its 12 header
/// bytes, less those) is not `width * height * 2` bytes long is refused with
/// its width, height, format and pixel data length, whatever follows it.
pub proof fn lemma_img_size_mismatch(s: Seq<u8>, pos: int, bpp: BitsPerPixel)
    requires
        0 <= pos,
        pos + 12 <= s.len(),
        12 <= le_u32(s, pos),
        le_u32(s, pos) - 12 != 2 * (le_u16(s, pos + 8) * le_u16(s, pos + 10)),
    ensures
        spec_img(s, pos, bpp) == Err::<(ImgView, int), DeserializeError>(DeserializeError::SizePixelsMismatch {
            width: le_u16(s, pos + 8) as u16,
            height: le_u16(s, pos + 10) as u16,
            bpp,
            pixels_len: (le_u32(s, pos) - 12) as usize,
        }),
{
    lemma_header_fields(s, pos);
    let header = Header::spec_from_bytes(s.subrange(pos, pos + 12));
    assert(header.size[0] * header.size[1] == le_u16(s, pos + 8) * le_u16(s, pos + 10));
}

} // verus!
