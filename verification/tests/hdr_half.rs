use ralk::half::{f32_to_f16, push_rg16f, push_rgba16f};
use ralk::hdr::{decode_rgbe_scanlines, parse_rgbe, HdrError, Rgbe};

fn hdr(size_line: &str, body: &[u8]) -> Vec<u8> {
    let mut v = b"#?RADIANCE\nFORMAT=32-bit_rle_rgbe\n\n".to_vec();
    v.extend_from_slice(size_line.as_bytes());
    v.extend_from_slice(body);
    v
}

fn px(r: u8, g: u8, b: u8, e: u8) -> Rgbe {
    Rgbe { r, g, b, e }
}

fn err_of(data: &[u8]) -> HdrError {
    match parse_rgbe(data) {
        Err(e) => e,
        Ok(_) => panic!("expected an error"),
    }
}

#[test]
fn parses_uncompressed_image() {
    let data = hdr("-Y 2 +X 2\n", &[1, 2, 3, 4, 5, 6, 7, 8, 9, 10, 11, 12, 13, 14, 15, 16]);
    let img = parse_rgbe(&data).unwrap();
    assert_eq!(img.width, 2);
    assert_eq!(img.height, 2);
    assert_eq!(
        img.pixels,
        vec![px(1, 2, 3, 4), px(5, 6, 7, 8), px(9, 10, 11, 12), px(13, 14, 15, 16)]
    );
}

#[test]
fn parses_rle_scanline() {
    // Width 8: each channel is one run of 8 equal bytes.
    let body = [2, 2, 0, 8, 136, 1, 136, 2, 136, 3, 136, 4];
    let img = parse_rgbe(&hdr("-Y 1 +X 8\n", &body)).unwrap();
    assert_eq!(img.pixels, vec![px(1, 2, 3, 4); 8]);
}

#[test]
fn parses_rle_literals_and_runs_mixed() {
    // Width 8: red = literal 4 then run 4; the others are single runs.
    let body = [2, 2, 0, 8, 4, 10, 11, 12, 13, 132, 14, 136, 0, 136, 0, 136, 128];
    let img = parse_rgbe(&hdr("-Y 1 +X 8\n", &body)).unwrap();
    let reds: Vec<u8> = img.pixels.iter().map(|p| p.r).collect();
    assert_eq!(reds, vec![10, 11, 12, 13, 14, 14, 14, 14]);
    assert!(img.pixels.iter().all(|p| p.e == 128));
}

#[test]
fn empty_image_has_no_pixels() {
    let img = parse_rgbe(&hdr("-Y 0 +X 5\n", &[])).unwrap();
    assert_eq!((img.width, img.height, img.pixels.len()), (5, 0, 0));
}

#[test]
fn error_not_radiance() {
    assert_eq!(err_of(b"P6\n1 1\n"), HdrError::NotRadiance);
    assert_eq!(err_of(b""), HdrError::NotRadiance);
}

#[test]
fn error_no_size_line() {
    assert_eq!(err_of(b"#?RADIANCE\n\n-Y 1 +X 1"), HdrError::NoSizeLine);
}

#[test]
fn error_size_line_not_utf8() {
    assert_eq!(err_of(b"#?R\n\n\xff\xfe 1\n"), HdrError::SizeLineNotUtf8);
}

#[test]
fn error_invalid_size_line() {
    assert_eq!(err_of(&hdr("-Y 1\n", &[])), HdrError::InvalidSizeLine);
}

#[test]
fn error_invalid_number() {
    assert_eq!(err_of(&hdr("-Y a +X 1\n", &[])), HdrError::InvalidNumber);
    assert_eq!(err_of(&hdr("-Y 1 +X -3\n", &[])), HdrError::InvalidNumber);
    assert_eq!(err_of(&hdr("-Y 1 +X 4294967296\n", &[])), HdrError::InvalidNumber);
}

#[test]
fn error_size_overflow() {
    assert_eq!(err_of(&hdr("-Y 65536 +X 65536\n", &[])), HdrError::SizeOverflow);
}

#[test]
fn error_unexpected_eof() {
    assert_eq!(err_of(&hdr("-Y 1 +X 1\n", &[1, 2])), HdrError::UnexpectedEof { row: 0 });
    assert_eq!(
        err_of(&hdr("-Y 3 +X 1\n", &[1, 2, 3, 4, 5, 6, 7, 8])),
        HdrError::UnexpectedEof { row: 2 }
    );
}

#[test]
fn error_scanline_width_mismatch() {
    assert_eq!(err_of(&hdr("-Y 1 +X 8\n", &[2, 2, 0, 9])), HdrError::ScanlineWidthMismatch);
}

#[test]
fn error_eof_in_rle_channel() {
    assert_eq!(err_of(&hdr("-Y 1 +X 8\n", &[2, 2, 0, 8])), HdrError::EofInRleChannel);
}

#[test]
fn error_eof_in_rle_run() {
    assert_eq!(err_of(&hdr("-Y 1 +X 8\n", &[2, 2, 0, 8, 130])), HdrError::EofInRleRun);
}

#[test]
fn error_eof_in_rle_literal() {
    assert_eq!(err_of(&hdr("-Y 1 +X 8\n", &[2, 2, 0, 8, 5, 1, 2])), HdrError::EofInRleLiteral);
}

#[test]
fn error_eof_in_raw_scanline() {
    assert_eq!(err_of(&hdr("-Y 1 +X 2\n", &[1, 2, 3, 4, 5])), HdrError::EofInRawScanline);
}

#[test]
fn error_run_past_scanline() {
    assert_eq!(err_of(&hdr("-Y 1 +X 8\n", &[2, 2, 0, 8, 137, 7])), HdrError::RunPastScanline);
    assert_eq!(
        err_of(&hdr("-Y 1 +X 8\n", &[2, 2, 0, 8, 9, 1, 2, 3, 4, 5, 6, 7, 8, 9])),
        HdrError::RunPastScanline
    );
}

#[test]
fn decode_scanlines_directly() {
    let pixels = decode_rgbe_scanlines(&[1, 2, 3, 4, 5, 6, 7, 8], 1, 2).unwrap();
    assert_eq!(pixels, vec![px(1, 2, 3, 4), px(5, 6, 7, 8)]);
    assert_eq!(decode_rgbe_scanlines(&[1, 2, 3], 1, 1), Err(HdrError::UnexpectedEof { row: 0 }));
    // A raw pixel whose first bytes look like an RLE header is still RLE:
    assert_eq!(decode_rgbe_scanlines(&[2, 2, 0, 1], 1, 1), Err(HdrError::EofInRleChannel));
}

#[test]
fn half_conversion_values() {
    assert_eq!(f32_to_f16(1.0f32.to_bits()), 0x3C00);
    assert_eq!(f32_to_f16(0.0f32.to_bits()), 0x0000);
    assert_eq!(f32_to_f16((-0.0f32).to_bits()), 0x8000);
    assert_eq!(f32_to_f16((-2.0f32).to_bits()), 0xC000);
    assert_eq!(f32_to_f16(65504.0f32.to_bits()), 0x7BFF);
    assert_eq!(f32_to_f16(1.0e6f32.to_bits()), 0x7C00);
    assert_eq!(f32_to_f16(f32::INFINITY.to_bits()), 0x7C00);
    assert_eq!(f32_to_f16(f32::NEG_INFINITY.to_bits()), 0xFC00);
    assert_eq!(f32_to_f16(0x7FC0_0000), 0x7E00);
    assert_eq!(f32_to_f16(0.5f32.to_bits()), 0x3800);
}

#[test]
fn half_conversion_subnormals_and_truncation() {
    // 2^-20 is a half subnormal: mantissa 2^-20 / 2^-24 = 16.
    assert_eq!(f32_to_f16((1.0f32 / 1048576.0).to_bits()), 0x0010);
    assert_eq!(f32_to_f16(1.0e-10f32.to_bits()), 0x0000);
    assert_eq!(f32_to_f16((-1.0e-10f32).to_bits()), 0x8000);
    // The mantissa is truncated, not rounded.
    assert_eq!(f32_to_f16((1.0f32 + 1.0 / 1024.0).to_bits()), 0x3C01);
    assert_eq!(f32_to_f16((1.0f32 + 1.0 / 2048.0).to_bits()), 0x3C00);
}

#[test]
fn half_conversion_rounds_toward_zero() {
    // Just below the next half (1 + 2^-10): still 1.0.
    assert_eq!(f32_to_f16(1.000732421875f32.to_bits()), 0x3C00);
    assert_eq!(f32_to_f16((-1.000732421875f32).to_bits()), 0xBC00);
    // 65519 is below 65504 + 32: the largest finite half, not infinity.
    assert_eq!(f32_to_f16(65519.0f32.to_bits()), 0x7BFF);
    // The smallest normal half, 2^-14, and a value just above it.
    assert_eq!(f32_to_f16((1.0f32 / 16384.0).to_bits()), 0x0400);
    assert_eq!(f32_to_f16((1.0f32 / 16384.0 * 1.0009765625).to_bits()), 0x0401);
    assert_eq!(f32_to_f16(3.14159f32.to_bits()), 0x4248);
}

#[test]
fn half_conversion_is_sign_symmetric() {
    let samples = [
        0.0f32.to_bits(),
        1.0f32.to_bits(),
        0.333f32.to_bits(),
        65504.0f32.to_bits(),
        1.0e6f32.to_bits(),
        (1.0f32 / 1048576.0).to_bits(),
        1.0e-10f32.to_bits(),
        f32::INFINITY.to_bits(),
        0x7FC0_0000,
        0x7F80_2001,
    ];
    for bits in samples {
        assert_eq!(f32_to_f16(bits ^ 0x8000_0000), f32_to_f16(bits) ^ 0x8000);
        assert_eq!(f32_to_f16(bits) & 0x8000, 0);
    }
}

#[test]
fn half_texels_are_little_endian() {
    let mut buf = vec![0xAA];
    push_rgba16f(
        &mut buf,
        1.0f32.to_bits(),
        (-2.0f32).to_bits(),
        0.0f32.to_bits(),
        0.5f32.to_bits(),
    );
    assert_eq!(buf, vec![0xAA, 0x00, 0x3C, 0x00, 0xC0, 0x00, 0x00, 0x00, 0x38]);
    let mut rg = Vec::new();
    push_rg16f(&mut rg, 65504.0f32.to_bits(), f32::INFINITY.to_bits());
    assert_eq!(rg, vec![0xFF, 0x7B, 0x00, 0x7C]);
}

#[test]
fn size_line_splits_on_unicode_white_space() {
    let img = parse_rgbe(&hdr("-Y\u{a0}1\u{3000}+X\u{2003}2\n", &[1, 2, 3, 4, 5, 6, 7, 8])).unwrap();
    assert_eq!((img.width, img.height), (2, 1));
    // A zero-width space is not white space: the field stays whole.
    let data = hdr("-Y 1\u{200b}2 +X 2\n", &[]);
    assert_eq!(err_of(&data), HdrError::InvalidNumber);
}
