use dcb_tim::bpp::BitsPerPixel;
use dcb_tim::clut::{self, Clut};
use dcb_tim::color::Color;
use dcb_tim::header::{self, DeserializeBytesError, Header};
use dcb_tim::img::{self, Img, Pixels};
use dcb_tim::tim::{self, ColorsError, Tim};
use dcb_tim::tis::{self, Tis};

fn push_u16(v: &mut Vec<u8>, x: u16) {
    v.extend_from_slice(&x.to_le_bytes());
}

fn push_u32(v: &mut Vec<u8>, x: u32) {
    v.extend_from_slice(&x.to_le_bytes());
}

/// A clut block of `width * height` colors, with the given 16-bit colors.
fn clut_block(width: u16, height: u16, colors: &[u16]) -> Vec<u8> {
    let mut v = Vec::new();
    push_u32(&mut v, 12 + 2 * colors.len() as u32);
    push_u16(&mut v, 0);
    push_u16(&mut v, 480);
    push_u16(&mut v, width);
    push_u16(&mut v, height);
    for &c in colors {
        push_u16(&mut v, c);
    }
    v
}

/// An image block with the given size (in 16-bit units) and pixel data.
fn img_block(width: u16, height: u16, data: &[u8]) -> Vec<u8> {
    let mut v = Vec::new();
    push_u32(&mut v, 12 + data.len() as u32);
    push_u16(&mut v, 320);
    push_u16(&mut v, 0);
    push_u16(&mut v, width);
    push_u16(&mut v, height);
    v.extend_from_slice(data);
    v
}

fn tim_header(flags: u32) -> Vec<u8> {
    let mut v = vec![0x10, 0, 0, 0];
    push_u32(&mut v, flags);
    v
}

/// A 4-bit tim: a clut of 32 colors (two pallettes) and a 2x1 image.
fn tim_4bit() -> Vec<u8> {
    let mut v = tim_header(0x8);
    let colors: Vec<u16> = (0..32u16).collect();
    v.extend(clut_block(16, 2, &colors));
    v.extend(img_block(2, 1, &[0x10, 0x32, 0x54, 0x76]));
    v
}

#[test]
fn bpp_is_indexed() {
    assert!(BitsPerPixel::Index4Bit.is_indexed());
    assert!(BitsPerPixel::Index8Bit.is_indexed());
    assert!(!BitsPerPixel::Color16Bit.is_indexed());
    assert!(!BitsPerPixel::Color24Bit.is_indexed());
}

#[test]
fn bpp_scale_size() {
    assert_eq!(BitsPerPixel::Index4Bit.scale_size([3, 5]), [12, 5]);
    assert_eq!(BitsPerPixel::Index8Bit.scale_size([3, 5]), [6, 5]);
    assert_eq!(BitsPerPixel::Color16Bit.scale_size([3, 5]), [3, 5]);
}

#[test]
fn color_from_16bit() {
    assert_eq!(Color::from_16bit(0x801f), Color { r: 248, g: 0, b: 0, stp: true });
    assert_eq!(Color::from_16bit(0x03e0), Color { r: 0, g: 248, b: 0, stp: false });
    assert_eq!(Color::from_16bit(0x0400), Color { r: 0, g: 0, b: 8, stp: false });
    assert_eq!(Color::from_16bit(0x0421), Color { r: 8, g: 8, b: 8, stp: false });
}

#[test]
fn color_from_24bit() {
    let [c1, c2] = Color::from_24bit([0x2211, 0x4433, 0x6655]);
    assert_eq!(c1, Color { r: 0x11, g: 0x22, b: 0x33, stp: false });
    assert_eq!(c2, Color { r: 0x44, g: 0x55, b: 0x66, stp: false });
}

#[test]
fn color_to_rgba() {
    assert_eq!(Color { r: 1, g: 2, b: 3, stp: true }.to_rgba(), [1, 2, 3, 255]);
    assert_eq!(Color { r: 1, g: 2, b: 3, stp: false }.to_rgba(), [1, 2, 3, 0]);
}

#[test]
fn header_deserialize() {
    let h = Header::deserialize_bytes(&[0x10, 0, 0xaa, 0xbb, 0x09, 0, 0, 0]).unwrap();
    assert_eq!(h, Header { bpp: BitsPerPixel::Index8Bit, clut_present: true });
    let h = Header::deserialize_bytes(&[0x10, 0, 0, 0, 0x02, 0, 0, 0]).unwrap();
    assert_eq!(h, Header { bpp: BitsPerPixel::Color16Bit, clut_present: false });
    let h = Header::deserialize_bytes(&[0x10, 0, 0, 0, 0x0b, 0, 0, 0]).unwrap();
    assert_eq!(h, Header { bpp: BitsPerPixel::Color24Bit, clut_present: true });
}

#[test]
fn header_deserialize_errors() {
    assert_eq!(
        Header::deserialize_bytes(&[0x11, 0, 0, 0, 0, 0, 0, 0]),
        Err(DeserializeBytesError::InvalidTag(0x11))
    );
    assert_eq!(
        Header::deserialize_bytes(&[0x10, 1, 0, 0, 0, 0, 0, 0]),
        Err(DeserializeBytesError::InvalidVersion(1))
    );
    assert_eq!(
        Header::deserialize_bytes(&[0x10, 0, 0, 0, 0x04, 0, 0, 0]),
        Err(DeserializeBytesError::UnknownFlag(0x04))
    );
    assert_eq!(
        Header::deserialize_bytes(&[0x10, 0, 0, 0, 0x00, 0x01, 0, 0]),
        Err(DeserializeBytesError::UnknownFlag(0x100))
    );
    assert_eq!(
        Header::deserialize_bytes(&[0x10, 0, 0, 0, 0x10, 0, 0, 0]),
        Err(DeserializeBytesError::UnknownFlag(0x10))
    );
}

#[test]
fn header_serialize_keeps_unused_bytes() {
    let mut bytes = [0xff; 8];
    Header { bpp: BitsPerPixel::Index4Bit, clut_present: true }.serialize_bytes(&mut bytes);
    assert_eq!(bytes, [0x10, 0, 0xff, 0xff, 0x08, 0, 0, 0]);
}

#[test]
fn header_roundtrip() {
    for bpp in [BitsPerPixel::Index4Bit, BitsPerPixel::Index8Bit, BitsPerPixel::Color16Bit, BitsPerPixel::Color24Bit] {
        for clut_present in [false, true] {
            let header = Header { bpp, clut_present };
            let mut bytes = [0x5a; 8];
            header.serialize_bytes(&mut bytes);
            assert_eq!(Header::deserialize_bytes(&bytes), Ok(header));
            let mut again = bytes;
            Header::deserialize_bytes(&bytes).unwrap().serialize_bytes(&mut again);
            assert_eq!(again, bytes);
        }
    }
}

#[test]
fn img_header_from_to_bytes() {
    let bytes = [0x14, 0, 0, 0, 0x40, 0x01, 0x02, 0, 0x03, 0, 0x04, 0];
    let h = img::Header::from_bytes(&bytes);
    assert_eq!(h, img::Header { length: 0x14, pos: [0x140, 2], size: [3, 4] });
    let mut out = [0u8; 12];
    h.to_bytes(&mut out);
    assert_eq!(out, bytes);
}

#[test]
fn img_header_roundtrip_large_length() {
    let h = img::Header { length: 0xdead_beef, pos: [0xffff, 1], size: [0x1234, 0x8000] };
    let mut out = [0u8; 12];
    h.to_bytes(&mut out);
    assert_eq!(out, [0xef, 0xbe, 0xad, 0xde, 0xff, 0xff, 1, 0, 0x34, 0x12, 0, 0x80]);
    assert_eq!(img::Header::from_bytes(&out), h);
}

#[test]
fn clut_header() {
    let bytes = [0xff, 0xff, 0xff, 0xff, 1, 0, 2, 0, 16, 0, 3, 0];
    let h = clut::Header::from_bytes(&bytes);
    assert_eq!(h, clut::Header { pos: [1, 2], size: [16, 3] });
    assert_eq!(h.colors_len(), 48);
    assert_eq!(clut::Header { pos: [0, 0], size: [0xffff, 0xffff] }.colors_len(), 0xfffe_0001);
}

#[test]
fn clut_deserialize() {
    let mut bytes = vec![0xee];
    bytes.extend(clut_block(2, 1, &[0x801f, 0x0400]));
    bytes.push(0xee);
    let (clut, end) = Clut::deserialize(&bytes, 1).unwrap();
    assert_eq!(end, 1 + 12 + 4);
    assert_eq!(clut.header.size, [2, 1]);
    assert_eq!(
        clut.colors,
        vec![Color { r: 248, g: 0, b: 0, stp: true }, Color { r: 0, g: 0, b: 8, stp: false }]
    );
}

#[test]
fn clut_deserialize_errors() {
    let block = clut_block(2, 1, &[0x801f, 0x0400]);
    assert_eq!(Clut::deserialize(&block[..11], 0), Err(clut::DeserializeError::ReadHeader));
    assert_eq!(Clut::deserialize(&block[..15], 0), Err(clut::DeserializeError::ReadColors));
    assert_eq!(Clut::deserialize(&block, 100), Err(clut::DeserializeError::ReadHeader));
}

#[test]
fn img_deserialize_4bit() {
    let bytes = img_block(1, 1, &[0x21, 0x43]);
    let (img, end) = Img::deserialize(&bytes, 0, BitsPerPixel::Index4Bit).unwrap();
    assert_eq!(end, 14);
    assert_eq!(img.pixels, Pixels::Index4Bit(vec![1, 2, 3, 4]));
    assert!(img.is_indexed());
    assert_eq!(img.pixels.bpp(), BitsPerPixel::Index4Bit);
}

#[test]
fn img_deserialize_8bit() {
    let bytes = img_block(1, 1, &[0x21, 0x43]);
    let (img, end) = Img::deserialize(&bytes, 0, BitsPerPixel::Index8Bit).unwrap();
    assert_eq!(end, 14);
    assert_eq!(img.pixels, Pixels::Index8Bit(vec![0x21, 0x43]));
}

#[test]
fn img_deserialize_indexed_takes_the_bytes_there_are() {
    let bytes = img_block(2, 1, &[0x21, 0x43, 0x65, 0x87]);
    let (img, end) = Img::deserialize(&bytes[..14], 0, BitsPerPixel::Index4Bit).unwrap();
    assert_eq!(end, 14);
    assert_eq!(img.pixels, Pixels::Index4Bit(vec![1, 2, 3, 4]));
}

#[test]
fn img_deserialize_16bit() {
    let bytes = img_block(2, 1, &[0x1f, 0x80, 0x00, 0x04, 0x1f, 0x00]);
    // 2 * 1 * 2 = 4 bytes of pixel data expected, 6 given: mismatch
    assert!(matches!(
        Img::deserialize(&bytes, 0, BitsPerPixel::Color16Bit),
        Err(img::DeserializeError::SizePixelsMismatch { width: 2, height: 1, pixels_len: 6, .. })
    ));
    let bytes = img_block(2, 1, &[0x1f, 0x80, 0x00, 0x04]);
    let (img, end) = Img::deserialize(&bytes, 0, BitsPerPixel::Color16Bit).unwrap();
    assert_eq!(end, 16);
    assert_eq!(
        img.pixels,
        Pixels::Color16Bit(vec![Color { r: 248, g: 0, b: 0, stp: true }, Color { r: 0, g: 0, b: 8, stp: false }])
    );
    assert!(!img.is_indexed());
}

#[test]
fn img_deserialize_24bit() {
    // 3 * 1 * 2 = 6 bytes: 2 groups of three words, read as 2 * 6 bytes
    let mut data: Vec<u8> = (1..=6).collect();
    let bytes = img_block(3, 1, &data);
    assert_eq!(
        Img::deserialize(&bytes, 0, BitsPerPixel::Color24Bit),
        Err(img::DeserializeError::ReadColors)
    );
    data.extend(7..=12u8);
    let mut bytes = img_block(3, 1, &data[..6]);
    bytes.extend_from_slice(&data[6..]);
    let (img, end) = Img::deserialize(&bytes, 0, BitsPerPixel::Color24Bit).unwrap();
    assert_eq!(end, 24);
    assert_eq!(
        img.pixels,
        Pixels::Color24Bit(vec![
            Color { r: 1, g: 2, b: 3, stp: false },
            Color { r: 4, g: 5, b: 6, stp: false },
            Color { r: 7, g: 8, b: 9, stp: false },
            Color { r: 10, g: 11, b: 12, stp: false },
        ])
    );
}

#[test]
fn img_deserialize_errors() {
    let bytes = img_block(2, 1, &[0x1f, 0x80, 0x00, 0x04]);
    assert_eq!(Img::deserialize(&bytes[..11], 0, BitsPerPixel::Color16Bit), Err(img::DeserializeError::ReadHeader));
    assert_eq!(Img::deserialize(&bytes[..15], 0, BitsPerPixel::Color16Bit), Err(img::DeserializeError::ReadColors));
    // A length below the header's own size wraps around
    let mut short = bytes.clone();
    short[0] = 4;
    assert_eq!(
        Img::deserialize(&short, 0, BitsPerPixel::Color16Bit),
        Err(img::DeserializeError::SizePixelsMismatch {
            width: 2,
            height: 1,
            bpp: BitsPerPixel::Color16Bit,
            pixels_len: usize::MAX - 7,
        })
    );
}

#[test]
fn tim_deserialize_4bit() {
    let bytes = tim_4bit();
    let (tim, end) = Tim::deserialize(&bytes, 0).unwrap();
    assert_eq!(end, bytes.len());
    let clut = tim.clut.as_ref().unwrap();
    assert_eq!(clut.colors.len(), 32);
    assert_eq!(tim.img.pixels, Pixels::Index4Bit(vec![0, 1, 2, 3, 4, 5, 6, 7]));
    assert_eq!(tim.size(), [8, 1]);
    assert_eq!(tim.pallettes(), 2);
}

#[test]
fn tim_colors() {
    let bytes = tim_4bit();
    let (tim, _) = Tim::deserialize(&bytes, 0).unwrap();
    let first = tim.colors(None).unwrap();
    assert_eq!(first.len(), 8);
    assert_eq!(first, tim.colors(Some(0)).unwrap());
    // Color `n` is the 16-bit word `n`: red is `8 * n` for `n < 32`
    assert_eq!(first[3], [24, 0, 0, 0]);
    let second = tim.colors(Some(1)).unwrap();
    assert_eq!(second[0], Color::from_16bit(16).to_rgba());
    assert_eq!(tim.colors(Some(2)), Err(ColorsError::InvalidPallette));
}

#[test]
fn tim_colors_partial_pallette() {
    // 20 colors: the second pallette holds 4 of them
    let mut bytes = tim_header(0x8);
    let colors: Vec<u16> = (0..20u16).collect();
    bytes.extend(clut_block(20, 1, &colors));
    bytes.extend(img_block(1, 1, &[0x30, 0x05]));
    let (tim, _) = Tim::deserialize(&bytes, 0).unwrap();
    assert_eq!(tim.pallettes(), 2);
    assert_eq!(tim.colors(Some(1)), Err(ColorsError::ColorOutOfBounds));
    assert_eq!(tim.colors(Some(0)).unwrap().len(), 4);
}

#[test]
fn tim_colors_missing_clut() {
    let img = Img {
        header: img::Header { length: 14, pos: [0, 0], size: [1, 1] },
        pixels: Pixels::Index8Bit(vec![0, 1]),
    };
    let tim = Tim { clut: None, img };
    assert_eq!(tim.pallettes(), 0);
    assert_eq!(tim.colors(None), Err(ColorsError::MissingClut));
    assert_eq!(tim.colors(Some(0)), Err(ColorsError::InvalidPallette));
}

#[test]
fn tim_deserialize_16bit() {
    let mut bytes = tim_header(0x2);
    bytes.extend(img_block(2, 1, &[0x1f, 0x80, 0x00, 0x04]));
    let (tim, _) = Tim::deserialize(&bytes, 0).unwrap();
    assert!(tim.clut.is_none());
    assert_eq!(tim.size(), [2, 1]);
    assert_eq!(tim.pallettes(), 0);
    assert_eq!(tim.colors(None).unwrap(), vec![[248, 0, 0, 255], [0, 0, 8, 0]]);
}

#[test]
fn tim_deserialize_errors() {
    assert_eq!(Tim::deserialize(&[0x10, 0, 0], 0), Err(tim::DeserializeError::ReadHeader));
    assert_eq!(
        Tim::deserialize(&[0x10, 0, 0, 0, 0x04, 0, 0, 0], 0),
        Err(tim::DeserializeError::ParseHeader(header::DeserializeBytesError::UnknownFlag(4)))
    );
    let mut bytes = tim_header(0x8);
    bytes.extend_from_slice(&[0; 4]);
    assert_eq!(
        Tim::deserialize(&bytes, 0),
        Err(tim::DeserializeError::DeserializeClut(clut::DeserializeError::ReadHeader))
    );
    let bytes = tim_header(0x2);
    assert_eq!(
        Tim::deserialize(&bytes, 0),
        Err(tim::DeserializeError::DeserializeImg(img::DeserializeError::ReadHeader))
    );
    let mut bytes = tim_header(0x1);
    bytes.extend(img_block(1, 1, &[0, 0]));
    assert_eq!(Tim::deserialize(&bytes, 0), Err(tim::DeserializeError::IndexMissingClut));
}

#[test]
fn tis_deserialize() {
    let first = tim_4bit();
    let mut second = tim_header(0x2);
    second.extend(img_block(2, 1, &[0x1f, 0x80, 0x00, 0x04]));

    // magic, 2 entries, padding to a word boundary for each tim
    let mut bytes = Vec::new();
    push_u16(&mut bytes, 0x7054);
    push_u16(&mut bytes, 2);
    let first_pos = 12u32;
    let second_pos = first_pos + first.len() as u32;
    push_u32(&mut bytes, first_pos / 4);
    push_u32(&mut bytes, second_pos / 4);
    bytes.extend(&first);
    bytes.extend(&second);

    let tis = Tis::deserialize(&bytes).unwrap();
    assert_eq!(tis.tims.len(), 2);
    assert_eq!(tis.tims[0], Tim::deserialize(&first, 0).unwrap().0);
    assert_eq!(tis.tims[1], Tim::deserialize(&second, 0).unwrap().0);
}

#[test]
fn tis_deserialize_errors() {
    assert_eq!(Tis::deserialize(&[0x54]), Err(tis::DeserializeError::ReadMagic));
    assert_eq!(Tis::deserialize(&[0x55, 0x70]), Err(tis::DeserializeError::InvalidMagic(0x7055)));
    assert_eq!(Tis::deserialize(&[0x54, 0x70, 1]), Err(tis::DeserializeError::ReadEntriesLen));
    assert_eq!(Tis::deserialize(&[0x54, 0x70, 1, 0, 0, 0, 0]), Err(tis::DeserializeError::ReadEntries));
    // An entry pointing past the end
    assert_eq!(
        Tis::deserialize(&[0x54, 0x70, 1, 0, 0x10, 0, 0, 0]),
        Err(tis::DeserializeError::DeserializeTim(tim::DeserializeError::ReadHeader))
    );
    // No entries
    assert_eq!(Tis::deserialize(&[0x54, 0x70, 0, 0]).unwrap().tims.len(), 0);
}
