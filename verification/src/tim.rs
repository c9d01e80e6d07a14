//! `tim` file: a header, an optional color lookup table and an image

use vstd::prelude::*;
use crate::bpp::BitsPerPixel;
use crate::clut::{self, spec_clut, Clut, ClutView};
use crate::header::{self, Header};
use crate::img::{self, remaining, spec_img, Img, ImgView, Pixels, PixelsView};
use crate::le::{le_u16, le_u32};

verus! {

/// Error type for [`Tim::deserialize`]
#[derive(PartialEq, Eq, Clone, Copy, Debug, Structural)]
pub enum DeserializeError {
    /// Unable to read header
    ReadHeader,
    /// Unable to parse header
    ParseHeader(header::DeserializeBytesError),
    /// Unable to deserialize clut
    DeserializeClut(clut::DeserializeError),
    /// Unable to deserialize image
    DeserializeImg(img::DeserializeError),
    /// Indexed image had no clut
    IndexMissingClut,
}

/// Error type for [`Tim::colors`]
#[derive(PartialEq, Eq, Clone, Copy, Debug, Structural)]
pub enum ColorsError {
    /// Missing clut with indexes colors
    MissingClut,
    /// Invalid pallette
    InvalidPallette,
    /// Color is out of bounds
    ColorOutOfBounds,
}

/// `tim` file
#[derive(PartialEq, Eq, Clone, Debug)]
pub struct Tim {
    /// Clut
    pub clut: Option<Clut>,
    /// Image
    pub img: Img,
}

/// A `tim` file, its tables as sequences.
pub ghost struct TimView {
    /// Clut
    pub clut: Option<ClutView>,
    /// Image
    pub img: ImgView,
}

impl View for Tim {
    type V = TimView;

    open spec fn view(&self) -> TimView {
        TimView {
            clut: match self.clut {
                Some(c) => Some(c@),
                None => None,
            },
            img: self.img@,
        }
    }
}

/// The image block that follows the clut (if any) of a `tim` file whose
/// header is `header`, with the position after it.
pub open spec fn spec_tim_img(s: Seq<u8>, header: Header, clut: Option<ClutView>, img_pos: int) -> Result<(TimView, int), DeserializeError> {
    match spec_img(s, img_pos, header.bpp) {
        Err(e) => Err(DeserializeError::DeserializeImg(e)),
        Ok((img, end)) => if img.pixels.bpp().spec_is_indexed() && clut is None {
            Err(DeserializeError::IndexMissingClut)
        } else {
            Ok((TimView { clut, img }, end))
        },
    }
}

/// The `tim` file at `s[pos..]`, with the position after it: an 8-byte header,
/// the clut when the header says that one is present, then the image, whose
/// pixels are in the header's format. An indexed image needs a clut.
#[verifier::opaque]
pub open spec fn spec_tim(s: Seq<u8>, pos: int) -> Result<(TimView, int), DeserializeError> {
    if remaining(s, pos) < 8 {
        Err(DeserializeError::ReadHeader)
    } else {
        match Header::spec_deserialize(s.subrange(pos, pos + 8)) {
            Err(e) => Err(DeserializeError::ParseHeader(e)),
            Ok(header) => if header.clut_present {
                match spec_clut(s, pos + 8) {
                    Err(e) => Err(DeserializeError::DeserializeClut(e)),
                    Ok((clut, clut_end)) => spec_tim_img(s, header, Some(clut), clut_end),
                }
            } else {
                spec_tim_img(s, header, None, pos + 8)
            },
        }
    }
}

/// The number of pallettes of `n` colors each that `len` colors fill, the last
/// one perhaps in part.
pub open spec fn pallettes_of(len: int, n: int) -> int {
    if len % n == 0 { len / n } else { len / n + 1 }
}

/// How many colors each pallette of an image with these pixels holds: 16 for
/// 4-bit indexes, 256 for 8-bit ones.
pub open spec fn pallette_size(pixels: PixelsView) -> int {
    match pixels {
        PixelsView::Index4Bit(_) => 16,
        _ => 256,
    }
}

impl TimView {
    /// The number of pallettes of this file's clut.
    pub open spec fn spec_pallettes(self) -> int {
        if self.img.pixels.bpp().spec_is_indexed() && self.clut is Some {
            pallettes_of(self.clut->Some_0.colors.len() as int, pallette_size(self.img.pixels))
        } else {
            0
        }
    }

    /// The indexes of an indexed image.
    pub open spec fn indexes(self) -> Seq<usize> {
        match self.img.pixels {
            PixelsView::Index4Bit(idxs) => idxs,
            PixelsView::Index8Bit(idxs) => idxs,
            _ => Seq::empty(),
        }
    }

    /// The colors of an image that is not indexed.
    pub open spec fn direct_colors(self) -> Seq<crate::color::Color> {
        match self.img.pixels {
            PixelsView::Color16Bit(c) => c,
            PixelsView::Color24Bit(c) => c,
            _ => Seq::empty(),
        }
    }

    /// The rgba colors of the image, its indexes looked up in the pallette
    /// `pallette` (the first when `None`).
    #[verifier::opaque]
    pub open spec fn spec_colors(self, pallette: Option<usize>) -> Result<Seq<[u8; 4]>, ColorsError> {
        if pallette is Some && pallette->Some_0 >= self.spec_pallettes() {
            Err(ColorsError::InvalidPallette)
        } else if self.img.pixels.bpp().spec_is_indexed() {
            let p = match pallette {
                Some(p) => p as int,
                None => 0,
            };
            let base = pallette_size(self.img.pixels) * p;
            let idxs = self.indexes();
            match self.clut {
                None => Err(ColorsError::MissingClut),
                Some(clut) => if forall|i: int| 0 <= i < idxs.len() ==> #[trigger] idxs[i] + base < clut.colors.len() {
                    Ok(Seq::new(idxs.len(), |i: int| clut.colors[base + idxs[i]].spec_to_rgba()))
                } else {
                    Err(ColorsError::ColorOutOfBounds)
                },
            }
        } else {
            Ok(Seq::new(self.direct_colors().len(), |i: int| self.direct_colors()[i].spec_to_rgba()))
        }
    }
}

/// A pallette that is in range starts within the colors.
proof fn lemma_pallette_start(len: int, n: int, p: int)
    requires
        n > 0,
        0 <= p < pallettes_of(len, n),
        len >= 0,
    ensures
        n * p < len,
{
    vstd::arithmetic::div_mod::lemma_fundamental_div_mod(len, n);
    assert(n * p < len) by (nonlinear_arith)
        requires
            n > 0,
            0 <= p,
            len >= 0,
            len % n == 0 ==> p < len / n,
            len % n != 0 ==> p <= len / n,
            len == n * (len / n) + len % n,
            0 <= len % n < n,
    {
    }
}

impl Tim {
    /// Deserializes the tim file at `bytes[pos..]`, returning it with the
    /// position after it.
    pub fn deserialize(bytes: &[u8], pos: usize) -> (res: Result<(Self, usize), DeserializeError>)
        ensures
            match res {
                Ok((tim, end)) => spec_tim(bytes@, pos as int) == Ok::<(TimView, int), DeserializeError>((tim@, end as int)),
                Err(e) => spec_tim(bytes@, pos as int) == Err::<(TimView, int), DeserializeError>(e),
            },
    {
        reveal(spec_tim);
        let len = bytes.len();
        if pos > len || len - pos < 8 {
            return Err(DeserializeError::ReadHeader);
        }
        let header = match Header::deserialize_at(bytes, pos) {
            Ok(header) => header,
            Err(e) => return Err(DeserializeError::ParseHeader(e)),
        };

        // If we have a clut, read it
        let (clut, img_pos) = if header.clut_present {
            match Clut::deserialize(bytes, pos + 8) {
                Ok((clut, end)) => (Some(clut), end),
                Err(e) => return Err(DeserializeError::DeserializeClut(e)),
            }
        } else {
            (None, pos + 8)
        };
        let ghost clut_view = match &clut {
            Some(c) => Some(c@),
            None => None,
        };

        let (img, end) = match Img::deserialize(bytes, img_pos, header.bpp) {
            Ok(res) => res,
            Err(e) => return Err(DeserializeError::DeserializeImg(e)),
        };

        // If this is indexed, return `Err` if we don't have a clut table
        if img.is_indexed() && clut.is_none() {
            return Err(DeserializeError::IndexMissingClut);
        }

        let tim = Tim { clut, img };
        assert(tim@.clut == clut_view);
        Ok((tim, end))
    }

    /// Returns this image's size
    pub fn size(&self) -> (res: [usize; 2])
        requires
            !(self.img.pixels is Color24Bit),
        ensures
            res[0] == self.img.header.size[0] * self.img.pixels@.bpp().width_scale(),
            res[1] == self.img.header.size[1],
    {
        let width = self.img.header.size[0] as usize;
        let height = self.img.header.size[1] as usize;
        let width = match &self.img.pixels {
            Pixels::Index4Bit(_) => width * 4,
            Pixels::Index8Bit(_) => width * 2,
            _ => width,
        };
        [width, height]
    }

    /// Returns the number of pallettes
    pub fn pallettes(&self) -> (res: usize)
        ensures
            res == self@.spec_pallettes(),
    {
        let n: usize = match &self.img.pixels {
            Pixels::Index4Bit(_) => 16,
            Pixels::Index8Bit(_) => 256,
            _ => return 0,
        };
        match &self.clut {
            None => 0,
            Some(clut) => {
                let len = clut.colors.len();
                if len % n == 0 { len / n } else { len / n + 1 }
            },
        }
    }

    /// Returns all colors as rgba, indexes looked up in `pallette` (the first
    /// when `None`).
    pub fn colors(&self, pallette: Option<usize>) -> (res: Result<Vec<[u8; 4]>, ColorsError>)
        ensures
            match res {
                Ok(colors) => self@.spec_colors(pallette) == Ok::<Seq<[u8; 4]>, ColorsError>(colors@),
                Err(e) => self@.spec_colors(pallette) == Err::<Seq<[u8; 4]>, ColorsError>(e),
            },
    {
        reveal(TimView::spec_colors);
        let pallettes = self.pallettes();
        // If the pallette is invalid, return Err
        let p: usize = match pallette {
            Some(p) => {
                if p >= pallettes {
                    return Err(ColorsError::InvalidPallette);
                }
                p
            },
            None => 0,
        };

        let ghost t = self@;
        match &self.img.pixels {
            Pixels::Index4Bit(idxs) | Pixels::Index8Bit(idxs) => {
                let size: usize = match &self.img.pixels {
                    Pixels::Index4Bit(_) => 16,
                    _ => 256,
                };
                let clut = match &self.clut {
                    Some(clut) => clut,
                    None => return Err(ColorsError::MissingClut),
                };
                let len = clut.colors.len();
                proof {
                    if pallette is Some {
                        lemma_pallette_start(len as int, size as int, p as int);
                    }
                }
                let base = size * p;
                let mut colors: Vec<[u8; 4]> = Vec::new();
                let mut i: usize = 0;
                while i < idxs.len()
                    invariant
                        t == self@,
                        pallette is Some ==> pallette->Some_0 < t.spec_pallettes(),
                        t.indexes() == idxs@,
                        t.clut == Some(clut@),
                        len == clut.colors@.len(),
                        base == pallette_size(t.img.pixels) * (match pallette { Some(p) => p as int, None => 0 }),
                        base <= len,
                        i <= idxs@.len(),
                        forall|j: int| 0 <= j < i ==> #[trigger] idxs@[j] + base < len,
                        colors@ =~= Seq::new(i as nat, |j: int| clut.colors@[base + idxs@[j]].spec_to_rgba()),
                    decreases idxs@.len() - i,
                {
                    let idx = idxs[i];
                    if idx >= len - base {
                        assert(!(forall|j: int| 0 <= j < idxs@.len() ==> #[trigger] idxs@[j] + base < len)) by {
                            assert(!(idxs@[i as int] + base < len));
                        }
                        reveal(TimView::spec_colors);
                        return Err(ColorsError::ColorOutOfBounds);
                    }
                    colors.push(clut.colors[base + idx].to_rgba());
                    i = i + 1;
                }
                Ok(colors)
            },
            Pixels::Color16Bit(direct) | Pixels::Color24Bit(direct) => {
                let mut colors: Vec<[u8; 4]> = Vec::new();
                let mut i: usize = 0;
                while i < direct.len()
                    invariant
                        t == self@,
                        t.direct_colors() == direct@,
                        i <= direct@.len(),
                        colors@ =~= Seq::new(i as nat, |j: int| direct@[j].spec_to_rgba()),
                    decreases direct@.len() - i,
                {
                    colors.push(direct[i].to_rgba());
                    i = i + 1;
                }
                Ok(colors)
            },
        }
    }
}

/// Every index of the image of `t` lies within one pallette.
pub open spec fn indexes_in_pallette(t: TimView) -> bool {
    forall|i: int| 0 <= i < t.indexes().len() ==> #[trigger] t.indexes()[i] < pallette_size(t.img.pixels)
}

/// A `tim` file read from bytes has an indexed image only with a clut, its
/// indexes each lie within one pallette, and it ends within the bytes, after
/// its header.
pub proof fn lemma_deserialized_tim(s: Seq<u8>, pos: int)
    requires
        spec_tim(s, pos) is Ok,
    ensures
        ({
            let (t, end) = spec_tim(s, pos)->Ok_0;
            &&& t.img.pixels.bpp().spec_is_indexed() ==> t.clut is Some
            &&& indexes_in_pallette(t)
            &&& pos + 8 <= end <= s.len()
        }),
{
    reveal(spec_tim);
    let (t, end) = spec_tim(s, pos)->Ok_0;
    let header = Header::spec_deserialize(s.subrange(pos, pos + 8))->Ok_0;
    let img_pos = if header.clut_present { spec_clut(s, pos + 8)->Ok_0.1 } else { pos + 8 };
    let (img, img_end) = spec_img(s, img_pos, header.bpp)->Ok_0;
    assert(t.img == img);
    assert(pos + 8 <= img_pos <= s.len());
    assert(img_pos + 12 <= img_end <= s.len());
    match img.pixels {
        PixelsView::Index4Bit(idxs) => {
            assert forall|i: int| 0 <= i < t.indexes().len() implies #[trigger] t.indexes()[i] < pallette_size(t.img.pixels) by {
                assert(idxs[i] == img::nibble_at(s, img_pos + 12, i));
            }
        },
        PixelsView::Index8Bit(idxs) => {
            assert forall|i: int| 0 <= i < t.indexes().len() implies #[trigger] t.indexes()[i] < pallette_size(t.img.pixels) by {
                assert(idxs[i] == s[img_pos + 12 + i] as usize);
            }
        },
        _ => {},
    }
}

/// Each whole pallette of a `tim` file whose indexes lie within one pallette
/// gives one rgba color per pixel.
pub proof fn lemma_whole_pallette_colors(t: TimView, p: usize)
    requires
        indexes_in_pallette(t),
        t.img.pixels.bpp().spec_is_indexed(),
        t.clut is Some,
        pallette_size(t.img.pixels) * (p + 1) <= t.clut->Some_0.colors.len(),
    ensures
        t.spec_colors(Some(p)) is Ok,
        t.spec_colors(Some(p))->Ok_0.len() == t.indexes().len(),
{
    reveal(TimView::spec_colors);
    let n = pallette_size(t.img.pixels);
    let len = t.clut->Some_0.colors.len() as int;
    vstd::arithmetic::div_mod::lemma_fundamental_div_mod(len, n);
    assert(p < pallettes_of(len, n)) by (nonlinear_arith)
        requires
            n > 0,
            n * (p + 1) <= len,
            len == n * (len / n) + len % n,
            0 <= len % n < n,
    {
        assert(p + 1 <= len / n);
    }
    let base = n * p;
    assert forall|i: int| 0 <= i < t.indexes().len() implies #[trigger] t.indexes()[i] + base < len by {
        assert(t.indexes()[i] < n);
    }
}

} // verus!

verus! {

/// Where the image block of the `tim` file at `s[pos..]` starts: right after
/// the 8-byte header, or, when bit 3 of the header's flags says a clut is
/// present, after the clut's 12-byte header and its `width * height` 16-bit
/// colors.
pub open spec fn tim_img_pos(s: Seq<u8>, pos: int) -> int {
    if le_u32(s, pos + 4) >= 8 {
        pos + 8 + 12 + 2 * (le_u16(s, pos + 16) * le_u16(s, pos + 18))
    } else {
        pos + 8
    }
}

/// The image of a `tim` file read from bytes is in the format that the two low
/// bits of its header's flags select (0: 4-bit indexes, 1: 8-bit indexes,
/// 2: 16-bit colors, 3: 24-bit colors), and its indexes come from the image
/// block's pixel data, which starts 12 bytes into the block: an 8-bit index is
/// the byte at its place, a 4-bit one the low, then the high nibble of its
/// byte.
pub proof fn lemma_tim_pixels_follow_flags(s: Seq<u8>, pos: int)
    requires
        0 <= pos,
        spec_tim(s, pos) is Ok,
    ensures
        ({
            let t = spec_tim(s, pos)->Ok_0.0;
            let flags = le_u32(s, pos + 4);
            let data = tim_img_pos(s, pos) + 12;
            &&& pos + 8 <= s.len()
            &&& (flags % 4 == 0 <==> t.img.pixels is Index4Bit)
            &&& (flags % 4 == 1 <==> t.img.pixels is Index8Bit)
            &&& (flags % 4 == 2 <==> t.img.pixels is Color16Bit)
            &&& (flags % 4 == 3 <==> t.img.pixels is Color24Bit)
            &&& (flags >= 8 <==> t.clut is Some)
            &&& match t.img.pixels {
                PixelsView::Index4Bit(idxs) => forall|j: int| 0 <= j < idxs.len() ==>
                    #[trigger] idxs[j] == (if j % 2 == 0 { s[data + j / 2] % 16 } else { s[data + j / 2] / 16 }),
                PixelsView::Index8Bit(idxs) => forall|j: int| 0 <= j < idxs.len() ==> #[trigger] idxs[j] == s[data + j],
                _ => true,
            }
        }),
{
    reveal(spec_tim);
    let (t, end) = spec_tim(s, pos)->Ok_0;
    let b = s.subrange(pos, pos + 8);
    assert(b[4] == s[pos + 4] && b[5] == s[pos + 5] && b[6] == s[pos + 6] && b[7] == s[pos + 7]);
    assert(le_u32(b, 4) == le_u32(s, pos + 4));
    let header = Header::spec_deserialize(b)->Ok_0;
    let img_pos = if header.clut_present { spec_clut(s, pos + 8)->Ok_0.1 } else { pos + 8 };
    if header.clut_present {
        let c = s.subrange(pos + 8, pos + 20);
        assert(c[8] == s[pos + 16] && c[9] == s[pos + 17] && c[10] == s[pos + 18] && c[11] == s[pos + 19]);
        assert(clut::Header::spec_from_bytes(c).spec_colors_len() == le_u16(s, pos + 16) * le_u16(s, pos + 18));
    }
    assert(img_pos == tim_img_pos(s, pos));
    let (img, img_end) = spec_img(s, img_pos, header.bpp)->Ok_0;
    assert(t.img == img);
    match img.pixels {
        PixelsView::Index4Bit(idxs) => {
            assert forall|j: int| 0 <= j < idxs.len() implies
                #[trigger] idxs[j] == (if j % 2 == 0 { s[img_pos + 12 + j / 2] % 16 } else { s[img_pos + 12 + j / 2] / 16 }) by {
                assert(idxs[j] == img::nibble_at(s, img_pos + 12, j));
            }
        },
        PixelsView::Index8Bit(idxs) => {
            assert forall|j: int| 0 <= j < idxs.len() implies #[trigger] idxs[j] == s[img_pos + 12 + j] by {
                assert(idxs[j] == s[img_pos + 12 + j] as usize);
            }
        },
        _ => {},
    }
}

} // verus!
