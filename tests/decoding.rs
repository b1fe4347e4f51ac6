use png_decoder::color::channel_count;
use png_decoder::filter::{paeth_predictor, unfilter_scanline, unfilter_scanlines};
use png_decoder::png::defilter_image;
use png_decoder::{decode_png, ErrorKind, ImageMetadata, PNG};

fn chunk(tag: &[u8; 4], data: &[u8]) -> Vec<u8> {
    let mut out = Vec::new();
    out.extend_from_slice(&(data.len() as u32).to_be_bytes());
    out.extend_from_slice(tag);
    out.extend_from_slice(data);
    let mut covered = tag.to_vec();
    covered.extend_from_slice(data);
    out.extend_from_slice(&crc32fast::hash(&covered).to_be_bytes());
    out
}

fn header(width: u32, height: u32, depth: u8, color: u8, interlace: u8) -> Vec<u8> {
    let mut d = Vec::new();
    d.extend_from_slice(&width.to_be_bytes());
    d.extend_from_slice(&height.to_be_bytes());
    d.extend_from_slice(&[depth, color, 0, 0, interlace]);
    d
}

/// A file with the given header fields whose image data is `scanlines`,
/// compressed, followed by the chunks in `extra` and a terminal chunk.
fn png_file(
    width: u32,
    height: u32,
    depth: u8,
    color: u8,
    interlace: u8,
    scanlines: &[u8],
    extra: &[Vec<u8>],
) -> Vec<u8> {
    let mut out = vec![137, 80, 78, 71, 13, 10, 26, 10];
    out.extend(chunk(b"IHDR", &header(width, height, depth, color, interlace)));
    for c in extra {
        out.extend_from_slice(c);
    }
    let z = miniz_oxide::deflate::compress_to_vec_zlib(scanlines, 6);
    out.extend(chunk(b"IDAT", &z));
    out.extend(chunk(b"IEND", &[]));
    out
}

fn meta(width: u32, height: u32, color_type: u8) -> ImageMetadata {
    ImageMetadata {
        width,
        height,
        bit_depth: 8,
        color_type,
        compression_method: 0,
        filter_method: 0,
        interlace_method: 0,
    }
}

fn paeth_ref(a: u8, b: u8, c: u8) -> u8 {
    let p = a as i16 + b as i16 - c as i16;
    let (pa, pb, pc) = ((p - a as i16).abs(), (p - b as i16).abs(), (p - c as i16).abs());
    if pa <= pb && pa <= pc {
        a
    } else if pb <= pc {
        b
    } else {
        c
    }
}

/// Filters `raw` rows (each `row_len` bytes) with the given filter types,
/// the way an encoder does, with neighbours `bpp` bytes apart.
fn encode(raw: &[Vec<u8>], filters: &[u8], bpp: usize) -> Vec<u8> {
    let mut out = Vec::new();
    let row_len = raw[0].len();
    let mut prior = vec![0u8; row_len];
    for (row, &f) in raw.iter().zip(filters) {
        out.push(f);
        for i in 0..row_len {
            let a = if i >= bpp { row[i - bpp] } else { 0 };
            let b = prior[i];
            let c = if i >= bpp { prior[i - bpp] } else { 0 };
            let p = match f {
                0 => 0,
                1 => a,
                2 => b,
                3 => ((a as u16 + b as u16) / 2) as u8,
                _ => paeth_ref(a, b, c),
            };
            out.push(row[i].wrapping_sub(p));
        }
        prior = row.clone();
    }
    out
}

#[test]
fn grayscale_row_decodes_to_opaque_gray_pixels() {
    let raw = [10u8, 20, 30, 40, 50, 60, 70, 80];
    let mut scanlines = vec![0u8];
    scanlines.extend_from_slice(&raw);
    let image = decode_png(png_file(8, 1, 8, 0, 0, &scanlines, &[])).unwrap();
    assert_eq!(image.metadata.width, 8);
    assert_eq!(image.metadata.height, 1);
    assert_eq!(image.pixels.len(), 8 * 4);
    for (i, v) in raw.iter().enumerate() {
        assert_eq!(&image.pixels[i * 4..i * 4 + 4], &[*v, *v, *v, 255]);
    }
}

#[test]
fn truncated_buffer_is_invalid_structure() {
    let mut bytes = vec![0u8; 40];
    bytes[..8].copy_from_slice(&[1, 2, 3, 4, 5, 6, 7, 8]);
    assert_eq!(decode_png(bytes).err().unwrap().kind(), ErrorKind::InvalidStructure);
    let good = png_file(8, 1, 8, 0, 0, &[0; 9], &[]);
    assert_eq!(decode_png(good[..40].to_vec()).err().unwrap().kind(), ErrorKind::InvalidStructure);
}

#[test]
fn wrong_signature_is_invalid_signature() {
    for i in 0..8 {
        let mut bytes = png_file(8, 1, 8, 0, 0, &[0; 9], &[]);
        bytes[i] ^= 0x20;
        assert_eq!(decode_png(bytes).err().unwrap().kind(), ErrorKind::InvalidSignature);
    }
    let mut junk = vec![7u8; 64];
    junk[0] = 137;
    assert_eq!(decode_png(junk).err().unwrap().kind(), ErrorKind::InvalidSignature);
}

#[test]
fn flipped_bit_fails_checksum() {
    let bytes = png_file(8, 1, 8, 0, 0, &[0, 1, 2, 3, 4, 5, 6, 7, 8], &[chunk(b"tEXt", b"a\0b")]);
    // The text chunk starts at 33: tag at 37..41, payload at 41..44.
    for pos in 37..44 {
        for bit in 0..8 {
            let mut flipped = bytes.clone();
            flipped[pos] ^= 1 << bit;
            assert_eq!(
                decode_png(flipped).err().unwrap().kind(),
                ErrorKind::FailedChecksum,
                "byte {} bit {}",
                pos,
                bit
            );
        }
    }
    // A bit flipped inside the compressed image data.
    let mut flipped = bytes.clone();
    flipped[44 + 12] ^= 0x04;
    assert_eq!(decode_png(flipped).err().unwrap().kind(), ErrorKind::FailedChecksum);
}

#[test]
fn up_filter_round_trip() {
    let prior = [5u8, 250, 0, 128, 77];
    let raw = [3u8, 10, 255, 128, 0];
    let filtered: Vec<u8> = raw.iter().zip(prior.iter()).map(|(r, p)| r.wrapping_sub(*p)).collect();
    let row = unfilter_scanline(2, &filtered, &prior, 1).unwrap();
    assert_eq!(row, raw.to_vec());
}

#[test]
fn every_filter_round_trips_with_three_byte_pixels() {
    let raw = vec![
        vec![1u8, 2, 3, 200, 100, 50, 9, 9, 9],
        vec![4u8, 5, 6, 7, 8, 9, 250, 251, 252],
        vec![255u8, 0, 255, 0, 255, 0, 1, 2, 3],
        vec![10u8, 20, 30, 40, 50, 60, 70, 80, 90],
        vec![90u8, 80, 70, 60, 50, 40, 30, 20, 10],
    ];
    let data = encode(&raw, &[0, 1, 2, 3, 4], 3);
    let out = unfilter_scanlines(&data, 9, 5, 3).unwrap();
    assert_eq!(out, raw.concat());
}

#[test]
fn paeth_ties_resolve_to_left() {
    for v in [0u8, 1, 77, 255] {
        assert_eq!(paeth_predictor(v, v, v), v);
    }
    // p = 15: distances 5, 5, 0, so above-left wins.
    assert_eq!(paeth_predictor(10, 20, 15), 15);
    // p = 30: distances 20, 10, 10, so above wins the tie with above-left.
    assert_eq!(paeth_predictor(10, 20, 0), 20);
    // p = 0 - clamped: a = 0, b = 0, c = 100: p = -100, distances 100, 100, 200.
    assert_eq!(paeth_predictor(0, 0, 100), 0);
}

#[test]
fn sub_and_average_use_source_stride() {
    // Two gray+alpha pixels: neighbours are two bytes back.
    let prior = [0u8; 4];
    let row = unfilter_scanline(1, &[10, 20, 5, 6], &prior, 2).unwrap();
    assert_eq!(row, vec![10, 20, 15, 26]);
    let prior = [100u8, 200, 50, 60];
    // Average: byte 0 = 1 + (0 + 100) / 2, byte 2 = 3 + (51 + 50) / 2.
    let row = unfilter_scanline(3, &[1, 2, 3, 4], &prior, 2).unwrap();
    assert_eq!(row, vec![51, 102, 53, 85]);
    // Wrapping addition.
    let row = unfilter_scanline(2, &[200, 0, 0, 0], &[100, 0, 0, 0], 2).unwrap();
    assert_eq!(row, vec![44, 0, 0, 0]);
}

#[test]
fn unknown_filter_type_is_refused() {
    let e = unfilter_scanline(5, &[1, 2], &[0, 0], 1).err().unwrap();
    assert_eq!(e.kind(), ErrorKind::InvalidScanlineFilter);
    let bytes = png_file(2, 2, 8, 0, 0, &[0, 1, 2, 7, 3, 4], &[]);
    assert_eq!(decode_png(bytes).err().unwrap().kind(), ErrorKind::InvalidScanlineFilter);
}

#[test]
fn palette_chunk_is_unsupported() {
    let bytes = png_file(1, 1, 8, 3, 0, &[0, 0], &[chunk(b"PLTE", &[0, 0, 0])]);
    let e = decode_png(bytes).err().unwrap();
    assert_eq!(e.kind(), ErrorKind::UnsupportedFeature);
}

#[test]
fn interlaced_image_is_unsupported() {
    let bytes = png_file(1, 1, 8, 0, 1, &[0, 0], &[]);
    assert_eq!(decode_png(bytes).err().unwrap().kind(), ErrorKind::UnsupportedFeature);
}

#[test]
fn four_bit_depth_is_unsupported() {
    let bytes = png_file(2, 1, 4, 0, 0, &[0, 0], &[]);
    assert_eq!(decode_png(bytes).err().unwrap().kind(), ErrorKind::UnsupportedFeature);
}

#[test]
fn nonzero_compression_method_is_unsupported() {
    let mut bytes = png_file(1, 1, 8, 0, 0, &[0, 0], &[]);
    bytes[26] = 1;
    // The header chunk's own CRC is not checked, so only the method matters.
    assert_eq!(decode_png(bytes).err().unwrap().kind(), ErrorKind::UnsupportedFeature);
}

#[test]
fn corrupt_image_data_fails_decoding() {
    let mut bytes = vec![137, 80, 78, 71, 13, 10, 26, 10];
    bytes.extend(chunk(b"IHDR", &header(1, 1, 8, 0, 0)));
    bytes.extend(chunk(b"IDAT", &[1, 2, 3, 4, 5, 6, 7]));
    bytes.extend(chunk(b"IEND", &[]));
    assert_eq!(decode_png(bytes).err().unwrap().kind(), ErrorKind::FailedDecoding);
}

#[test]
fn too_little_image_data_is_invalid_structure() {
    let bytes = png_file(4, 2, 8, 0, 0, &[0, 1, 2, 3, 4], &[]);
    assert_eq!(decode_png(bytes).err().unwrap().kind(), ErrorKind::InvalidStructure);
}

#[test]
fn every_color_type_decodes_to_four_bytes_per_pixel() {
    // (color type, bytes per pixel)
    for (color, bpp) in [(0u8, 1usize), (2, 3), (4, 2), (6, 4)] {
        let width = 3usize;
        let raw: Vec<Vec<u8>> = (0..4)
            .map(|y| (0..width * bpp).map(|i| (y * 37 + i * 11) as u8).collect())
            .collect();
        let scanlines = encode(&raw, &[1, 2, 3, 4], bpp);
        let image = decode_png(png_file(width as u32, 4, 8, color, 0, &scanlines, &[])).unwrap();
        assert_eq!(image.pixels.len(), width * 4 * 4);
        for y in 0..4 {
            for x in 0..width {
                let px = &raw[y][x * bpp..x * bpp + bpp];
                let want = match color {
                    0 => [px[0], px[0], px[0], 255],
                    2 => [px[2], px[1], px[0], 255],
                    4 => [px[0], px[0], px[0], px[1]],
                    _ => [px[2], px[1], px[0], px[3]],
                };
                let at = (y * width + x) * 4;
                assert_eq!(&image.pixels[at..at + 4], &want, "color {} pixel {},{}", color, x, y);
            }
        }
    }
}

#[test]
fn defilter_image_reorders_channels() {
    let rgba = defilter_image(&meta(2, 1, 6), &[0, 1, 2, 3, 4, 5, 6, 7, 8]).unwrap();
    assert_eq!(rgba, vec![3, 2, 1, 4, 7, 6, 5, 8]);
    let rgb = defilter_image(&meta(1, 2, 2), &[0, 1, 2, 3, 0, 9, 8, 7]).unwrap();
    assert_eq!(rgb, vec![3, 2, 1, 255, 7, 8, 9, 255]);
    let ga = defilter_image(&meta(1, 1, 4), &[0, 40, 50]).unwrap();
    assert_eq!(ga, vec![40, 40, 40, 50]);
    let empty = defilter_image(&meta(5, 0, 0), &[]).unwrap();
    assert!(empty.is_empty());
}

#[test]
fn defilter_image_refuses_bad_color_types() {
    let e = defilter_image(&meta(1, 1, 3), &[0, 0]).err().unwrap();
    assert_eq!(e.kind(), ErrorKind::UnsupportedFeature);
    let e = defilter_image(&meta(1, 1, 5), &[0, 0]).err().unwrap();
    assert_eq!(e.kind(), ErrorKind::InvalidStructure);
    let mut sixteen = meta(1, 1, 2);
    sixteen.bit_depth = 16;
    let e = defilter_image(&sixteen, &[0; 7]).err().unwrap();
    assert_eq!(e.kind(), ErrorKind::UnsupportedFeature);
    let e = defilter_image(&meta(2, 1, 0), &[0, 1]).err().unwrap();
    assert_eq!(e.kind(), ErrorKind::InvalidStructure);
}

#[test]
fn channel_counts() {
    assert_eq!(channel_count(0, 8).unwrap(), 1);
    assert_eq!(channel_count(0, 1).unwrap(), 1);
    assert_eq!(channel_count(2, 8).unwrap(), 3);
    assert_eq!(channel_count(2, 16).unwrap(), 3);
    assert_eq!(channel_count(4, 8).unwrap(), 2);
    assert_eq!(channel_count(6, 16).unwrap(), 4);
    assert_eq!(channel_count(2, 4).err().unwrap().kind(), ErrorKind::InvalidStructure);
    assert_eq!(channel_count(3, 8).err().unwrap().kind(), ErrorKind::UnsupportedFeature);
    assert_eq!(channel_count(7, 8).err().unwrap().kind(), ErrorKind::InvalidStructure);
}

#[test]
fn png_keeps_parts_and_decodes() {
    let raw = [vec![1u8, 2, 3, 4, 5, 6]];
    let scanlines = encode(&raw, &[4], 3);
    let z = miniz_oxide::deflate::compress_to_vec_zlib(&scanlines, 9);
    let (first, second) = z.split_at(z.len() / 2);
    let mut bytes = vec![137, 80, 78, 71, 13, 10, 26, 10];
    bytes.extend(chunk(b"IHDR", &header(2, 1, 8, 2, 0)));
    bytes.extend(chunk(b"IDAT", first));
    bytes.extend(chunk(b"tEXt", b"c\0d"));
    bytes.extend(chunk(b"IDAT", second));
    bytes.extend(chunk(b"IEND", &[]));
    let png = PNG::from_bytes(bytes, "picture".to_string()).unwrap();
    assert_eq!(png.name(), "picture");
    assert_eq!(png.chunk_count(), 3);
    assert_eq!(png.metadata().width, 2);
    assert_eq!(png.metadata().color_type, 2);
    assert_eq!(png.get_number_of_channels().unwrap(), 3);
    assert_eq!(png.compressed_data(), z);
    let pixels = png.get_decoded_chunk_data().unwrap();
    assert_eq!(pixels, vec![3, 2, 1, 255, 6, 5, 4, 255]);
    assert_eq!(png.filter_decoded_data(scanlines).unwrap(), pixels);
    let image = png.decode().unwrap();
    assert_eq!(image.pixels, pixels);
    assert_eq!(image.metadata, png.metadata());
}
