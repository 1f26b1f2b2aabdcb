use pngcheck::chunk::{Chunk, GAMA, IHDR, PHYS, PLTE, SRGB, TRNS};
use pngcheck::error::{ErrorKind, PngError};
use pngcheck::metadata::{
    ColorSpace, ColorType, Gamma, ImageHeader, Palette, PhysicalDimensions, Rgb, Transparency,
    Unit,
};
use pngcheck::png::Png;

fn chunk(tag: [u8; 4], payload: Vec<u8>, offset: usize) -> Chunk {
    Chunk { length: payload.len() as u32, chunk_type: tag, payload, crc: 0, offset }
}

fn invalid(tag: [u8; 4], offset: usize) -> PngError {
    PngError { kind: ErrorKind::InvalidFieldValue, chunk_type: Some(tag), offset }
}

fn header_chunk(depth: u8, color: u8, compression: u8, filter: u8, interlace: u8) -> Chunk {
    chunk(IHDR, vec![0, 0, 1, 0, 0, 0, 0, 2, depth, color, compression, filter, interlace], 8)
}

#[test]
fn header_decodes_field_by_field() {
    let c = chunk(IHDR, vec![0x01, 0x02, 0x03, 0x04, 0xA0, 0xB0, 0xC0, 0xD0, 16, 6, 0, 0, 1], 8);
    assert_eq!(
        ImageHeader::decode(&c),
        Ok(ImageHeader {
            width: 0x0102_0304,
            height: 0xA0B0_C0D0,
            bit_depth: 16,
            color_type: ColorType::RGBA,
            compression_method: 0,
            filter_method: 0,
            interlace_method: 1,
        })
    );
}

#[test]
fn header_payload_one_byte_short_is_invalid() {
    let c = chunk(IHDR, vec![0, 0, 0, 1, 0, 0, 0, 1, 8, 0, 0, 0], 8);
    assert_eq!(ImageHeader::decode(&c), Err(invalid(IHDR, 8)));
    let png = Png { chunks: vec![c], extra_bytes: vec![] };
    assert_eq!(png.ihdr(), Err(invalid(IHDR, 8)));
}

#[test]
fn header_payload_of_other_lengths_is_invalid() {
    assert_eq!(ImageHeader::decode(&chunk(IHDR, vec![], 8)), Err(invalid(IHDR, 8)));
    assert_eq!(ImageHeader::decode(&chunk(IHDR, vec![0; 14], 8)), Err(invalid(IHDR, 8)));
}

#[test]
fn header_colour_type_must_be_known() {
    for color in [1u8, 5, 7, 255] {
        assert_eq!(ImageHeader::decode(&header_chunk(8, color, 0, 0, 0)), Err(invalid(IHDR, 8)));
    }
    for (color, expected) in [
        (0u8, ColorType::Grayscale),
        (2, ColorType::RGB),
        (3, ColorType::Palette),
        (4, ColorType::GrayscaleAlpha),
        (6, ColorType::RGBA),
    ] {
        assert_eq!(ImageHeader::decode(&header_chunk(8, color, 0, 0, 0)).unwrap().color_type, expected);
        assert_eq!(ColorType::from_byte(color), Some(expected));
    }
}

#[test]
fn header_bit_depth_goes_by_colour_type() {
    for depth in 0u8..=255 {
        let gray = [1, 2, 4, 8, 16].contains(&depth);
        let palette = [1, 2, 4, 8].contains(&depth);
        let other = [8, 16].contains(&depth);
        assert_eq!(ImageHeader::decode(&header_chunk(depth, 0, 0, 0, 0)).is_ok(), gray);
        assert_eq!(ImageHeader::decode(&header_chunk(depth, 3, 0, 0, 0)).is_ok(), palette);
        assert_eq!(ImageHeader::decode(&header_chunk(depth, 2, 0, 0, 0)).is_ok(), other);
        assert_eq!(ImageHeader::decode(&header_chunk(depth, 4, 0, 0, 0)).is_ok(), other);
        assert_eq!(ImageHeader::decode(&header_chunk(depth, 6, 0, 0, 0)).is_ok(), other);
        assert_eq!(ColorType::Grayscale.allows_depth(depth), gray);
        assert_eq!(ColorType::Palette.allows_depth(depth), palette);
        assert_eq!(ColorType::RGBA.allows_depth(depth), other);
    }
}

#[test]
fn header_methods_must_be_in_their_domains() {
    assert_eq!(ImageHeader::decode(&header_chunk(8, 0, 1, 0, 0)), Err(invalid(IHDR, 8)));
    assert_eq!(ImageHeader::decode(&header_chunk(8, 0, 0, 1, 0)), Err(invalid(IHDR, 8)));
    assert_eq!(ImageHeader::decode(&header_chunk(8, 0, 0, 0, 2)), Err(invalid(IHDR, 8)));
    assert!(ImageHeader::decode(&header_chunk(8, 0, 0, 0, 1)).is_ok());
}

fn header(width: u32, height: u32, bit_depth: u8, color_type: ColorType) -> ImageHeader {
    ImageHeader {
        width,
        height,
        bit_depth,
        color_type,
        compression_method: 0,
        filter_method: 0,
        interlace_method: 0,
    }
}

#[test]
fn row_bytes_round_bits_up() {
    assert_eq!(header(1, 1, 1, ColorType::Grayscale).row_bytes(), 1);
    assert_eq!(header(8, 1, 1, ColorType::Grayscale).row_bytes(), 1);
    assert_eq!(header(9, 1, 1, ColorType::Grayscale).row_bytes(), 2);
    assert_eq!(header(5, 1, 4, ColorType::Palette).row_bytes(), 3);
    assert_eq!(header(3, 1, 8, ColorType::RGB).row_bytes(), 9);
    assert_eq!(header(3, 1, 16, ColorType::RGBA).row_bytes(), 24);
    assert_eq!(header(7, 1, 8, ColorType::GrayscaleAlpha).row_bytes(), 14);
    assert_eq!(header(0, 1, 8, ColorType::RGB).row_bytes(), 0);
    assert_eq!(header(u32::MAX, 1, 16, ColorType::RGBA).row_bytes(), 8 * (u32::MAX as u64));
}

#[test]
fn pixel_bytes_are_at_least_one() {
    assert_eq!(header(1, 1, 1, ColorType::Grayscale).pixel_bytes(), 1);
    assert_eq!(header(1, 1, 4, ColorType::Palette).pixel_bytes(), 1);
    assert_eq!(header(1, 1, 8, ColorType::Grayscale).pixel_bytes(), 1);
    assert_eq!(header(1, 1, 16, ColorType::Grayscale).pixel_bytes(), 2);
    assert_eq!(header(1, 1, 8, ColorType::GrayscaleAlpha).pixel_bytes(), 2);
    assert_eq!(header(1, 1, 8, ColorType::RGB).pixel_bytes(), 3);
    assert_eq!(header(1, 1, 16, ColorType::RGB).pixel_bytes(), 6);
    assert_eq!(header(1, 1, 8, ColorType::RGBA).pixel_bytes(), 4);
    assert_eq!(header(1, 1, 16, ColorType::RGBA).pixel_bytes(), 8);
}

#[test]
fn data_len_counts_a_filter_byte_per_row() {
    assert_eq!(header(1, 1, 8, ColorType::Grayscale).data_len(), 2);
    assert_eq!(header(3, 2, 8, ColorType::RGB).data_len(), 20);
    assert_eq!(header(10, 0, 8, ColorType::RGB).data_len(), 0);
    assert_eq!(header(0, 5, 8, ColorType::RGB).data_len(), 5);
    assert_eq!(
        header(u32::MAX, u32::MAX, 16, ColorType::RGBA).data_len(),
        (u32::MAX as u128) * (8 * (u32::MAX as u128) + 1)
    );
}

#[test]
fn channels_by_colour_type() {
    assert_eq!(ColorType::Grayscale.channels(), 1);
    assert_eq!(ColorType::RGB.channels(), 3);
    assert_eq!(ColorType::Palette.channels(), 1);
    assert_eq!(ColorType::GrayscaleAlpha.channels(), 2);
    assert_eq!(ColorType::RGBA.channels(), 4);
}

#[test]
fn palette_is_one_entry_per_three_bytes() {
    let c = chunk(PLTE, vec![1, 2, 3, 250, 251, 252], 33);
    assert_eq!(
        Palette::decode(&c),
        Ok(Palette {
            entries: vec![
                Rgb { red: 1, green: 2, blue: 3 },
                Rgb { red: 250, green: 251, blue: 252 },
            ]
        })
    );
    assert_eq!(Palette::decode(&chunk(PLTE, vec![], 33)), Ok(Palette { entries: vec![] }));
}

#[test]
fn palette_of_broken_triples_is_invalid() {
    assert_eq!(Palette::decode(&chunk(PLTE, vec![1, 2, 3, 4], 33)), Err(invalid(PLTE, 33)));
    assert_eq!(Palette::decode(&chunk(PLTE, vec![1, 2], 33)), Err(invalid(PLTE, 33)));
}

#[test]
fn transparency_goes_by_colour_type() {
    let gray = chunk(TRNS, vec![0x12, 0x34], 40);
    assert_eq!(
        Transparency::decode(&gray, ColorType::Grayscale),
        Ok(Transparency::Grayscale(0x1234))
    );
    let rgb = chunk(TRNS, vec![0, 1, 0x80, 0, 0xFF, 0xFE], 40);
    assert_eq!(
        Transparency::decode(&rgb, ColorType::RGB),
        Ok(Transparency::RGB(1, 0x8000, 0xFFFE))
    );
    let alpha = chunk(TRNS, vec![0, 128, 255], 40);
    assert_eq!(
        Transparency::decode(&alpha, ColorType::Palette),
        Ok(Transparency::Palette(vec![0, 128, 255]))
    );
    assert_eq!(
        Transparency::decode(&chunk(TRNS, vec![], 40), ColorType::Palette),
        Ok(Transparency::Palette(vec![]))
    );
}

#[test]
fn transparency_of_wrong_length_or_colour_type_is_invalid() {
    let two = chunk(TRNS, vec![0, 1], 40);
    let six = chunk(TRNS, vec![0, 1, 0, 2, 0, 3], 40);
    assert_eq!(Transparency::decode(&six, ColorType::Grayscale), Err(invalid(TRNS, 40)));
    assert_eq!(Transparency::decode(&two, ColorType::RGB), Err(invalid(TRNS, 40)));
    assert_eq!(Transparency::decode(&two, ColorType::GrayscaleAlpha), Err(invalid(TRNS, 40)));
    assert_eq!(Transparency::decode(&six, ColorType::RGBA), Err(invalid(TRNS, 40)));
}

#[test]
fn physical_dimensions_decode() {
    let c = chunk(PHYS, vec![0, 0, 0x0B, 0x13, 0, 0, 0x0B, 0x14, 1], 50);
    assert_eq!(
        PhysicalDimensions::decode(&c),
        Ok(PhysicalDimensions { pixels_per_unit_x: 2835, pixels_per_unit_y: 2836, unit: Unit::Meter })
    );
    let unknown = chunk(PHYS, vec![0, 0, 0, 1, 0, 0, 0, 2, 0], 50);
    assert_eq!(
        PhysicalDimensions::decode(&unknown),
        Ok(PhysicalDimensions { pixels_per_unit_x: 1, pixels_per_unit_y: 2, unit: Unit::Unknown })
    );
}

#[test]
fn physical_dimensions_reject_bad_unit_and_length() {
    assert_eq!(
        PhysicalDimensions::decode(&chunk(PHYS, vec![0, 0, 0, 1, 0, 0, 0, 2, 2], 50)),
        Err(invalid(PHYS, 50))
    );
    assert_eq!(
        PhysicalDimensions::decode(&chunk(PHYS, vec![0, 0, 0, 1, 0, 0, 0, 2], 50)),
        Err(invalid(PHYS, 50))
    );
    assert_eq!(PhysicalDimensions::decode(&chunk(PHYS, vec![0; 10], 50)), Err(invalid(PHYS, 50)));
}

#[test]
fn rendering_intent_decodes() {
    assert_eq!(ColorSpace::decode(&chunk(SRGB, vec![0], 60)), Ok(ColorSpace::Perceptual));
    assert_eq!(ColorSpace::decode(&chunk(SRGB, vec![1], 60)), Ok(ColorSpace::RelativeColorimetric));
    assert_eq!(ColorSpace::decode(&chunk(SRGB, vec![2], 60)), Ok(ColorSpace::Saturation));
    assert_eq!(ColorSpace::decode(&chunk(SRGB, vec![3], 60)), Ok(ColorSpace::AbsoluteColorimetric));
    assert_eq!(ColorSpace::decode(&chunk(SRGB, vec![4], 60)), Err(invalid(SRGB, 60)));
    assert_eq!(ColorSpace::decode(&chunk(SRGB, vec![], 60)), Err(invalid(SRGB, 60)));
    assert_eq!(ColorSpace::decode(&chunk(SRGB, vec![0, 0], 60)), Err(invalid(SRGB, 60)));
}

#[test]
fn gamma_decodes() {
    assert_eq!(Gamma::decode(&chunk(GAMA, vec![0, 0, 0xB1, 0x8F], 70)), Ok(Gamma { value: 45455 }));
    assert_eq!(Gamma::decode(&chunk(GAMA, vec![0, 0, 0xB1], 70)), Err(invalid(GAMA, 70)));
    assert_eq!(Gamma::decode(&chunk(GAMA, vec![0; 5], 70)), Err(invalid(GAMA, 70)));
}

#[test]
fn absent_chunks_are_no_error() {
    let png = Png { chunks: vec![], extra_bytes: vec![] };
    assert_eq!(png.ihdr(), Ok(None));
    assert_eq!(png.plte(), Ok(None));
    assert_eq!(png.trns(ColorType::Palette), Ok(None));
    assert_eq!(png.trns(ColorType::RGBA), Ok(None));
    assert_eq!(png.phys(), Ok(None));
    assert_eq!(png.srgb(), Ok(None));
    assert_eq!(png.gama(), Ok(None));
    assert!(png.header_is_first());
}

#[test]
fn each_kind_is_decoded_on_its_own() {
    let png = Png {
        chunks: vec![
            chunk(IHDR, vec![0; 12], 8),
            chunk(GAMA, vec![0, 1, 0x86, 0xA0], 32),
            chunk(SRGB, vec![9], 48),
            chunk(PLTE, vec![7, 8, 9], 61),
            chunk(TRNS, vec![5], 76),
            chunk(PHYS, vec![0, 0, 0, 3, 0, 0, 0, 4, 1], 89),
        ],
        extra_bytes: vec![],
    };
    assert_eq!(png.ihdr(), Err(invalid(IHDR, 8)));
    assert_eq!(png.gama(), Ok(Some(Gamma { value: 100_000 })));
    assert_eq!(png.srgb(), Err(invalid(SRGB, 48)));
    assert_eq!(png.plte(), Ok(Some(Palette { entries: vec![Rgb { red: 7, green: 8, blue: 9 }] })));
    assert_eq!(png.trns(ColorType::Palette), Ok(Some(Transparency::Palette(vec![5]))));
    assert_eq!(png.trns(ColorType::Grayscale), Err(invalid(TRNS, 76)));
    assert_eq!(
        png.phys(),
        Ok(Some(PhysicalDimensions { pixels_per_unit_x: 3, pixels_per_unit_y: 4, unit: Unit::Meter }))
    );
}

#[test]
fn the_first_chunk_of_a_kind_is_the_one_decoded() {
    let png = Png {
        chunks: vec![
            chunk(GAMA, vec![0, 0, 0, 1], 8),
            chunk(GAMA, vec![0, 0, 0, 2], 24),
            chunk(SRGB, vec![7], 40),
            chunk(SRGB, vec![1], 53),
        ],
        extra_bytes: vec![],
    };
    assert_eq!(png.gama(), Ok(Some(Gamma { value: 1 })));
    assert_eq!(png.srgb(), Err(invalid(SRGB, 40)));
}

#[test]
fn palette_presence_goes_by_colour_type() {
    let with = Png { chunks: vec![chunk(PLTE, vec![1, 2, 3], 8)], extra_bytes: vec![] };
    let without = Png { chunks: vec![chunk(GAMA, vec![0, 0, 0, 1], 8)], extra_bytes: vec![] };
    assert!(with.palette_fits(ColorType::Palette));
    assert!(!without.palette_fits(ColorType::Palette));
    assert!(!with.palette_fits(ColorType::Grayscale));
    assert!(without.palette_fits(ColorType::Grayscale));
    assert!(!with.palette_fits(ColorType::GrayscaleAlpha));
    assert!(without.palette_fits(ColorType::GrayscaleAlpha));
    assert!(with.palette_fits(ColorType::RGB));
    assert!(without.palette_fits(ColorType::RGB));
    assert!(with.palette_fits(ColorType::RGBA));
    assert!(without.palette_fits(ColorType::RGBA));
}
