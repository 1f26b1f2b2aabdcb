use miniz_oxide::deflate::compress_to_vec_zlib;
use pngcheck::chunk::{Chunk, IDAT, IEND, IHDR};
use pngcheck::error::{ErrorKind, PngError};
use pngcheck::filter::{paeth, predict, unfilter_row, FilterType};
use pngcheck::metadata::{ColorType, ImageHeader};
use pngcheck::png::Png;
use pngcheck::scanline::reconstruct_scanlines;

fn header(width: u32, height: u32, bit_depth: u8, color_type: ColorType) -> ImageHeader {
    ImageHeader {
        width,
        height,
        bit_depth,
        color_type,
        compression_method: 0,
        filter_method: 0,
        interlace_method: 0,
    }
}

fn chunk(tag: [u8; 4], payload: Vec<u8>) -> Chunk {
    Chunk { length: payload.len() as u32, chunk_type: tag, payload, crc: 0, offset: 0 }
}

fn header_chunk(width: u32, height: u32, depth: u8, color: u8, interlace: u8) -> Chunk {
    let mut payload = Vec::new();
    payload.extend_from_slice(&width.to_be_bytes());
    payload.extend_from_slice(&height.to_be_bytes());
    payload.extend_from_slice(&[depth, color, 0, 0, interlace]);
    chunk(IHDR, payload)
}

fn image(header: Chunk, data: Vec<Vec<u8>>) -> Png {
    let mut chunks = vec![header];
    for part in data {
        chunks.push(chunk(IDAT, part));
    }
    chunks.push(chunk(IEND, vec![]));
    Png { chunks, extra_bytes: vec![] }
}

fn data_error(kind: ErrorKind, offset: usize) -> PngError {
    PngError { kind, chunk_type: Some(IDAT), offset }
}

#[test]
fn one_grey_pixel_without_filter() {
    let h = header(1, 1, 8, ColorType::Grayscale);
    assert_eq!(reconstruct_scanlines(&h, &[0x00, 0x7F]), Ok(vec![vec![0x7F]]));
}

#[test]
fn one_grey_pixel_with_sub_on_the_first_row() {
    let h = header(1, 1, 8, ColorType::Grayscale);
    assert_eq!(reconstruct_scanlines(&h, &[0x01, 0x7F]), Ok(vec![vec![0x7F]]));
}

#[test]
fn one_grey_pixel_through_a_stored_zlib_block() {
    let stream =
        vec![0x78, 0x01, 0x01, 0x02, 0x00, 0xFD, 0xFF, 0x00, 0x7F, 0x00, 0x81, 0x00, 0x80];
    let png = image(header_chunk(1, 1, 8, 0, 0), vec![stream]);
    assert_eq!(png.get_scanlines(), Ok(vec![vec![0x7F]]));
}

#[test]
fn one_grey_pixel_through_a_deflated_stream() {
    for filter in [0u8, 1, 2, 3, 4] {
        let png = image(header_chunk(1, 1, 8, 0, 0), vec![compress_to_vec_zlib(&[filter, 0x7F], 6)]);
        assert_eq!(png.get_scanlines(), Ok(vec![vec![0x7F]]));
    }
}

#[test]
fn image_data_is_joined_across_chunks_in_order() {
    let raw = vec![0u8, 1, 2, 3, 0, 4, 5, 6];
    let stream = compress_to_vec_zlib(&raw, 6);
    let (a, b) = stream.split_at(stream.len() / 2);
    let mut png = image(header_chunk(3, 2, 8, 0, 0), vec![a.to_vec(), b.to_vec()]);
    png.chunks.insert(2, chunk(*b"tEXt", vec![0x78, 0x01]));
    assert_eq!(png.image_data(), stream);
    assert_eq!(png.get_scanlines(), Ok(vec![vec![1, 2, 3], vec![4, 5, 6]]));
}

#[test]
fn sub_adds_the_pixel_to_the_left() {
    let row = unfilter_row(FilterType::Sub, &[10, 20, 30, 1, 2, 3, 250, 250, 250], &[], 3);
    assert_eq!(row, vec![10, 20, 30, 11, 22, 33, 5, 16, 27]);
    let narrow = unfilter_row(FilterType::Sub, &[1, 1, 1, 1], &[9, 9, 9, 9], 1);
    assert_eq!(narrow, vec![1, 2, 3, 4]);
}

#[test]
fn up_adds_the_byte_above() {
    let row = unfilter_row(FilterType::Up, &[1, 2, 3, 200], &[10, 20, 30, 100], 1);
    assert_eq!(row, vec![11, 22, 33, 44]);
    let first = unfilter_row(FilterType::Up, &[1, 2, 3], &[], 1);
    assert_eq!(first, vec![1, 2, 3]);
}

#[test]
fn average_adds_the_floor_of_the_mean() {
    let row = unfilter_row(FilterType::Average, &[10, 10, 10, 10], &[5, 200, 255, 0], 2);
    assert_eq!(row, vec![12, 110, 143, 65]);
    let first = unfilter_row(FilterType::Average, &[100, 100, 100], &[], 1);
    assert_eq!(first, vec![100, 150, 175]);
    assert_eq!(predict(FilterType::Average, 255, 255, 0), 255);
    assert_eq!(predict(FilterType::Average, 255, 254, 0), 254);
}

#[test]
fn paeth_picks_the_nearest_and_breaks_ties_in_order() {
    assert_eq!(paeth(0, 0, 0), 0);
    assert_eq!(paeth(10, 20, 10), 20);
    assert_eq!(paeth(20, 10, 10), 20);
    assert_eq!(paeth(3, 7, 5), 5);
    assert_eq!(paeth(6, 0, 2), 6);
    assert_eq!(paeth(0, 6, 2), 6);
    assert_eq!(paeth(9, 9, 4), 9);
    assert_eq!(paeth(255, 0, 255), 0);
    assert_eq!(paeth(0, 255, 255), 0);
    assert_eq!(paeth(255, 255, 0), 255);
    assert_eq!(paeth(100, 50, 200), 50);
}

#[test]
fn paeth_filter_uses_left_up_and_upper_left() {
    let row = unfilter_row(FilterType::Paeth, &[1, 1, 1, 1], &[10, 20, 30, 40], 1);
    // byte 0: left 0, up 10, corner 0 -> up; 1 + 10
    // byte 1: left 11, up 20, corner 10 -> estimate 21, nearest up; 1 + 20
    // byte 2: left 21, up 30, corner 20 -> estimate 31, nearest up; 1 + 30
    // byte 3: left 31, up 40, corner 30 -> estimate 41, nearest up; 1 + 40
    assert_eq!(row, vec![11, 21, 31, 41]);
    let first = unfilter_row(FilterType::Paeth, &[5, 5, 5], &[], 1);
    assert_eq!(first, vec![5, 10, 15]);
}

#[test]
fn predictions_by_filter() {
    assert_eq!(predict(FilterType::NoFilter, 1, 2, 3), 0);
    assert_eq!(predict(FilterType::Sub, 1, 2, 3), 1);
    assert_eq!(predict(FilterType::Up, 1, 2, 3), 2);
    assert_eq!(predict(FilterType::Average, 1, 2, 3), 1);
    assert_eq!(predict(FilterType::Paeth, 1, 2, 3), 1);
}

#[test]
fn sums_wrap_round() {
    let row = unfilter_row(FilterType::Sub, &[200, 100, 255], &[], 1);
    assert_eq!(row, vec![200, 44, 43]);
}

#[test]
fn a_flat_row_unfilters_to_itself() {
    let raw = unfilter_row(FilterType::Paeth, &[7, 3, 250, 9, 1], &[4, 4, 8, 200, 0], 2);
    let again = unfilter_row(FilterType::NoFilter, &raw, &[4, 4, 8, 200, 0], 2);
    assert_eq!(again, raw);
    let plain = unfilter_row(FilterType::NoFilter, &[1, 2, 3], &[], 1);
    assert_eq!(plain, vec![1, 2, 3]);
}

#[test]
fn pixel_width_of_zero_has_no_left_neighbour() {
    let row = unfilter_row(FilterType::Sub, &[1, 2, 3], &[], 0);
    assert_eq!(row, vec![1, 2, 3]);
}

#[test]
fn rows_depend_on_the_raw_row_above() {
    let h = header(2, 3, 8, ColorType::RGB);
    let raw = [
        1, 10, 20, 30, 1, 1, 1, // Sub
        2, 1, 1, 1, 1, 1, 1, // Up
        4, 0, 0, 0, 5, 5, 5, // Paeth
    ];
    assert_eq!(
        reconstruct_scanlines(&h, &raw),
        Ok(vec![
            vec![10, 20, 30, 11, 21, 31],
            vec![11, 21, 31, 12, 22, 32],
            vec![11, 21, 31, 17, 27, 37],
        ])
    );
}

#[test]
fn packed_pixels_use_a_pixel_width_of_one_byte() {
    let h = header(10, 2, 1, ColorType::Grayscale);
    let raw = [1, 0x80, 0x01, 3, 0x02, 0x04];
    assert_eq!(
        reconstruct_scanlines(&h, &raw),
        Ok(vec![vec![0x80, 0x81], vec![0x42, 0x65]])
    );
}

#[test]
fn filter_type_bytes_beyond_four_are_unknown() {
    let h = header(2, 3, 8, ColorType::Grayscale);
    let raw = [0, 1, 2, 5, 3, 4, 9, 5, 6];
    assert_eq!(reconstruct_scanlines(&h, &raw), Err(data_error(ErrorKind::UnknownFilterType, 3)));
    assert_eq!(FilterType::from_byte(5), None);
    assert_eq!(FilterType::from_byte(255), None);
    assert_eq!(FilterType::from_byte(0), Some(FilterType::NoFilter));
    assert_eq!(FilterType::from_byte(1), Some(FilterType::Sub));
    assert_eq!(FilterType::from_byte(2), Some(FilterType::Up));
    assert_eq!(FilterType::from_byte(3), Some(FilterType::Average));
    assert_eq!(FilterType::from_byte(4), Some(FilterType::Paeth));
}

#[test]
fn data_that_ends_inside_a_row_is_a_truncation() {
    let h = header(2, 2, 8, ColorType::Grayscale);
    assert_eq!(
        reconstruct_scanlines(&h, &[0, 1, 2, 0, 3]),
        Err(data_error(ErrorKind::UnexpectedEndOfStream, 5))
    );
    assert_eq!(
        reconstruct_scanlines(&h, &[9, 1, 2, 0, 3]),
        Err(data_error(ErrorKind::UnexpectedEndOfStream, 5))
    );
    assert_eq!(
        reconstruct_scanlines(&h, &[]),
        Err(data_error(ErrorKind::UnexpectedEndOfStream, 0))
    );
}

#[test]
fn bytes_behind_the_last_row_are_ignored() {
    let h = header(2, 1, 8, ColorType::Grayscale);
    assert_eq!(reconstruct_scanlines(&h, &[0, 1, 2, 77, 78]), Ok(vec![vec![1, 2]]));
}

#[test]
fn images_without_rows_or_columns() {
    let flat = header(5, 0, 8, ColorType::RGB);
    assert_eq!(reconstruct_scanlines(&flat, &[]), Ok(vec![]));
    let thin = header(0, 3, 8, ColorType::RGB);
    assert_eq!(reconstruct_scanlines(&thin, &[0, 1, 4]), Ok(vec![vec![], vec![], vec![]]));
    let png = image(header_chunk(5, 0, 8, 2, 0), vec![compress_to_vec_zlib(&[], 6)]);
    assert_eq!(png.get_scanlines(), Ok(vec![]));
}

#[test]
fn huge_declared_size_is_a_truncation_not_an_allocation() {
    let h = header(u32::MAX, u32::MAX, 16, ColorType::RGBA);
    assert_eq!(
        reconstruct_scanlines(&h, &[0, 1, 2]),
        Err(data_error(ErrorKind::UnexpectedEndOfStream, 3))
    );
    let png = image(
        header_chunk(u32::MAX, u32::MAX, 16, 6, 0),
        vec![compress_to_vec_zlib(&[0, 1, 2], 6)],
    );
    assert_eq!(png.get_scanlines(), Err(data_error(ErrorKind::UnexpectedEndOfStream, 3)));
}

#[test]
fn interlaced_images_are_refused() {
    let mut h = header(1, 1, 8, ColorType::Grayscale);
    h.interlace_method = 1;
    let refused =
        PngError { kind: ErrorKind::UnsupportedInterlace, chunk_type: Some(IHDR), offset: 0 };
    assert_eq!(reconstruct_scanlines(&h, &[0, 0x7F]), Err(refused));
    let png = image(header_chunk(1, 1, 8, 0, 1), vec![compress_to_vec_zlib(&[0, 0x7F], 6)]);
    assert_eq!(png.get_scanlines(), Err(refused));
}

#[test]
fn reconstruction_needs_a_header() {
    let missing =
        PngError { kind: ErrorKind::MissingRequiredChunk, chunk_type: Some(IHDR), offset: 0 };
    let none = Png { chunks: vec![chunk(IDAT, compress_to_vec_zlib(&[0, 1], 6))], extra_bytes: vec![] };
    assert_eq!(none.get_scanlines(), Err(missing));
    let broken = image(chunk(IHDR, vec![0; 12]), vec![compress_to_vec_zlib(&[0, 1], 6)]);
    assert_eq!(broken.get_scanlines(), Err(missing));
}

#[test]
fn corrupt_image_data_is_a_decompression_failure() {
    let failure = data_error(ErrorKind::DecompressionFailure, 0);
    let garbage = image(header_chunk(1, 1, 8, 0, 0), vec![vec![1, 2, 3, 4, 5]]);
    assert_eq!(garbage.get_scanlines(), Err(failure));
    let empty = image(header_chunk(1, 1, 8, 0, 0), vec![]);
    assert_eq!(empty.get_scanlines(), Err(failure));
    let mut stream = compress_to_vec_zlib(&[0, 0x7F], 6);
    let last = stream.len() - 1;
    stream[last] ^= 0xFF;
    let bad_sum = image(header_chunk(1, 1, 8, 0, 0), vec![stream]);
    assert_eq!(bad_sum.get_scanlines(), Err(failure));
    let mut cut = compress_to_vec_zlib(&[0, 0x7F], 6);
    cut.truncate(4);
    let short = image(header_chunk(1, 1, 8, 0, 0), vec![cut]);
    assert_eq!(short.get_scanlines(), Err(failure));
}

#[test]
fn image_data_beyond_the_declared_size_is_a_decompression_failure() {
    let png = image(header_chunk(1, 1, 8, 0, 0), vec![compress_to_vec_zlib(&[0, 0x7F, 0x55], 6)]);
    assert_eq!(png.get_scanlines(), Err(data_error(ErrorKind::DecompressionFailure, 0)));
}

#[test]
fn image_data_short_of_the_declared_size_is_a_truncation() {
    let png = image(header_chunk(2, 2, 8, 0, 0), vec![compress_to_vec_zlib(&[0, 1, 2, 0], 6)]);
    assert_eq!(png.get_scanlines(), Err(data_error(ErrorKind::UnexpectedEndOfStream, 4)));
}

#[test]
fn unknown_filter_type_comes_through_the_whole_pipeline() {
    let png = image(header_chunk(1, 2, 8, 0, 0), vec![compress_to_vec_zlib(&[0, 1, 7, 2], 6)]);
    assert_eq!(png.get_scanlines(), Err(data_error(ErrorKind::UnknownFilterType, 2)));
}
