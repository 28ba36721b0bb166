use silly_image::decoder::{
    decode, decode_body, decode_native, decode_text, shape_of, strip_newlines, BodyShape,
};
use silly_image::encoder::{append, encode, encode_native, EncodeMode};
use silly_image::error::CodecError;
use silly_image::header::{host_byte_order, write_header, ByteOrder};
use silly_image::pixel_buffer::{channel_count, PixelBuffer};

fn two_by_one() -> PixelBuffer {
    PixelBuffer::new(2, 1, vec![255, 0, 0, 255, 0, 255, 0, 128]).unwrap()
}

fn container(width: u32, height: u32, order: ByteOrder, body: &[u8]) -> Vec<u8> {
    let mut bytes = write_header(width, height, order).to_vec();
    bytes.extend_from_slice(body);
    bytes
}

#[test]
fn two_pixels_in_compact_mode() {
    let image = two_by_one();
    for order in [ByteOrder::Little, ByteOrder::Big] {
        let bytes = encode(&image, EncodeMode::RgbaCompact, order);
        assert_eq!(bytes[..8], write_header(2, 1, order));
        assert_eq!(&bytes[8..], b"FF0000FF00FF0080");
        assert_eq!(decode(&bytes, order), Ok(image.clone()));
    }
}

#[test]
fn compact_body_alone_decodes_to_the_two_pixels() {
    let image = decode_body(2, 1, b"FF0000FF00FF0080").unwrap();
    assert_eq!(image.width(), 2);
    assert_eq!(image.height(), 1);
    assert_eq!(image.channels(), &[255, 0, 0, 255, 0, 255, 0, 128]);
}

#[test]
fn two_pixels_in_rows_mode_lose_alpha() {
    let image = two_by_one();
    let bytes = encode(&image, EncodeMode::RgbRows, ByteOrder::Little);
    assert_eq!(bytes[..8], [2, 0, 0, 0, 1, 0, 0, 0]);
    assert_eq!(&bytes[8..], b"FF000000FF00\n");
    let back = decode(&bytes, ByteOrder::Little).unwrap();
    assert_eq!(back.width(), 2);
    assert_eq!(back.height(), 1);
    assert_eq!(back.channels(), &[255, 0, 0, 255, 0, 255, 0, 255]);
}

#[test]
fn body_that_fits_neither_shape_is_a_length_mismatch() {
    let bytes = container(2, 2, ByteOrder::Little, &[b'0'; 20]);
    assert_eq!(
        decode(&bytes, ByteOrder::Little),
        Err(CodecError::LengthMismatch { expected: 32, actual: 20 })
    );
    let bytes = container(2, 2, ByteOrder::Little, &[b'0'; 31]);
    assert_eq!(
        decode(&bytes, ByteOrder::Little),
        Err(CodecError::LengthMismatch { expected: 32, actual: 31 })
    );
}

#[test]
fn twenty_four_digits_are_four_pixels_without_alpha() {
    let bytes = container(2, 2, ByteOrder::Little, b"0102030405060708090A0B0C");
    let image = decode(&bytes, ByteOrder::Little).unwrap();
    assert_eq!(image.width(), 2);
    assert_eq!(image.height(), 2);
    assert_eq!(image.channels(), &[1, 2, 3, 255, 4, 5, 6, 255, 7, 8, 9, 255, 10, 11, 12, 255]);
}

#[test]
fn rows_mode_ends_every_row_with_a_newline() {
    let channels: Vec<u8> = (0u8..24).collect();
    let image = PixelBuffer::new(3, 2, channels).unwrap();
    let bytes = encode(&image, EncodeMode::RgbRows, ByteOrder::Big);
    assert_eq!(bytes[..8], [0, 0, 0, 3, 0, 0, 0, 2]);
    assert_eq!(&bytes[8..], b"00010204050608090A\n0C0D0E101112141516\n");
}

#[test]
fn rows_mode_body_length_is_six_per_pixel_plus_one_per_row() {
    let image = PixelBuffer::new(5, 4, vec![7; 80]).unwrap();
    let bytes = encode(&image, EncodeMode::RgbRows, ByteOrder::Little);
    assert_eq!(bytes.len(), 8 + 5 * 4 * 6 + 4);
    let compact = encode(&image, EncodeMode::RgbaCompact, ByteOrder::Little);
    assert_eq!(compact.len(), 8 + 5 * 4 * 8);
}

#[test]
fn compact_round_trip_gives_the_image_back() {
    for (width, height) in [(1u32, 1u32), (3, 2), (2, 3), (7, 5), (0, 0), (0, 4), (4, 0)] {
        let count = (width * height * 4) as usize;
        let channels: Vec<u8> = (0..count).map(|i| (i * 37 + 11) as u8).collect();
        let image = PixelBuffer::new(width, height, channels).unwrap();
        for order in [ByteOrder::Little, ByteOrder::Big] {
            let bytes = encode(&image, EncodeMode::RgbaCompact, order);
            assert_eq!(decode(&bytes, order), Ok(image.clone()));
        }
    }
}

#[test]
fn rows_round_trip_gives_the_image_back_opaque() {
    for (width, height) in [(1u32, 1u32), (3, 2), (2, 3), (7, 5), (0, 0), (0, 4), (4, 0)] {
        let count = (width * height * 4) as usize;
        let channels: Vec<u8> = (0..count).map(|i| (i * 37 + 11) as u8).collect();
        let opaque: Vec<u8> =
            channels.iter().enumerate().map(|(i, c)| if i % 4 == 3 { 255 } else { *c }).collect();
        let image = PixelBuffer::new(width, height, channels).unwrap();
        let wanted = PixelBuffer::new(width, height, opaque).unwrap();
        let bytes = encode(&image, EncodeMode::RgbRows, ByteOrder::Little);
        assert_eq!(decode(&bytes, ByteOrder::Little), Ok(wanted));
    }
}

#[test]
fn empty_image_is_a_header_and_nothing_else() {
    let image = PixelBuffer::new(0, 0, Vec::new()).unwrap();
    assert_eq!(encode(&image, EncodeMode::RgbaCompact, ByteOrder::Little), vec![0u8; 8]);
    assert_eq!(encode(&image, EncodeMode::RgbRows, ByteOrder::Little), vec![0u8; 8]);
    assert_eq!(decode(&[0u8; 8], ByteOrder::Little), Ok(image));
}

#[test]
fn container_read_in_the_other_order_announces_another_size() {
    let bytes = encode(&two_by_one(), EncodeMode::RgbaCompact, ByteOrder::Little);
    assert_eq!(
        decode(&bytes, ByteOrder::Big),
        Err(CodecError::LengthMismatch {
            expected: 0x0200_0000u128 * 0x0100_0000u128 * 8,
            actual: 16
        })
    );
}

#[test]
fn fewer_than_eight_bytes_is_a_truncated_header() {
    for len in 0..8 {
        assert_eq!(decode(&vec![b'0'; len], ByteOrder::Little), Err(CodecError::TruncatedHeader));
    }
    assert_eq!(decode_native(&[1, 0, 0]), Err(CodecError::TruncatedHeader));
}

#[test]
fn length_is_checked_before_the_digits() {
    let bytes = container(1, 1, ByteOrder::Little, b"GGGGG");
    assert_eq!(
        decode(&bytes, ByteOrder::Little),
        Err(CodecError::LengthMismatch { expected: 8, actual: 5 })
    );
}

#[test]
fn missing_body_is_a_length_mismatch() {
    let bytes = container(1, 1, ByteOrder::Little, b"");
    assert_eq!(
        decode(&bytes, ByteOrder::Little),
        Err(CodecError::LengthMismatch { expected: 8, actual: 0 })
    );
}

#[test]
fn huge_claimed_size_is_a_length_mismatch() {
    let bytes = container(u32::MAX, u32::MAX, ByteOrder::Little, b"00000000");
    assert_eq!(
        decode(&bytes, ByteOrder::Little),
        Err(CodecError::LengthMismatch {
            expected: (u32::MAX as u128) * (u32::MAX as u128) * 8,
            actual: 8
        })
    );
}

#[test]
fn bad_digit_in_a_body_of_the_right_length_is_malformed() {
    let bytes = container(2, 1, ByteOrder::Little, b"FF0000FF00GG0080");
    assert_eq!(decode(&bytes, ByteOrder::Little), Err(CodecError::MalformedHex));
    let bytes = container(2, 1, ByteOrder::Little, b"FF000000GG00");
    assert_eq!(decode(&bytes, ByteOrder::Little), Err(CodecError::MalformedHex));
    let bytes = container(1, 1, ByteOrder::Little, b"0000000 ");
    assert_eq!(decode(&bytes, ByteOrder::Little), Err(CodecError::MalformedHex));
}

#[test]
fn lower_case_body_decodes() {
    let bytes = container(2, 1, ByteOrder::Little, b"ff0000ff00ff0080");
    assert_eq!(decode(&bytes, ByteOrder::Little), Ok(two_by_one()));
}

#[test]
fn newlines_anywhere_are_ignored() {
    let bytes = container(2, 1, ByteOrder::Little, b"\nFF00\n00FF\n\n00FF0080\n");
    assert_eq!(decode(&bytes, ByteOrder::Little), Ok(two_by_one()));
    let bytes = container(0, 0, ByteOrder::Little, b"\n\n\n");
    assert_eq!(decode(&bytes, ByteOrder::Little), Ok(PixelBuffer::new(0, 0, Vec::new()).unwrap()));
}

#[test]
fn carriage_return_is_not_a_newline() {
    let bytes = container(1, 1, ByteOrder::Little, b"00000000\r\n");
    assert_eq!(
        decode(&bytes, ByteOrder::Little),
        Err(CodecError::LengthMismatch { expected: 8, actual: 9 })
    );
}

#[test]
fn invalid_utf8_is_read_as_replacement_characters() {
    let mut body = vec![0xffu8];
    body.extend_from_slice(b"0000000");
    let bytes = container(1, 1, ByteOrder::Little, &body);
    assert_eq!(
        decode(&bytes, ByteOrder::Little),
        Err(CodecError::LengthMismatch { expected: 8, actual: 10 })
    );
}

#[test]
fn valid_utf8_that_is_not_hex_is_malformed() {
    let body = [0xc3, 0xa9, b'0', b'0', b'0', b'0', b'0', b'0'];
    assert!(std::str::from_utf8(&body).is_ok());
    let bytes = container(1, 1, ByteOrder::Little, &body);
    assert_eq!(decode(&bytes, ByteOrder::Little), Err(CodecError::MalformedHex));
}

#[test]
fn strip_newlines_takes_out_newlines_only() {
    assert_eq!(strip_newlines(b"\nAB\n\nCD\r\n"), b"ABCD\r".to_vec());
    assert_eq!(strip_newlines(b""), Vec::<u8>::new());
    assert_eq!(strip_newlines(b"\n\n"), Vec::<u8>::new());
    assert_eq!(strip_newlines(b"0123"), b"0123".to_vec());
}

#[test]
fn shape_is_read_off_the_length() {
    assert_eq!(shape_of(2, 2, 32), Ok(BodyShape::Rgba));
    assert_eq!(shape_of(2, 2, 24), Ok(BodyShape::Rgb));
    assert_eq!(shape_of(0, 9, 0), Ok(BodyShape::Rgba));
    assert_eq!(shape_of(2, 2, 16), Err(CodecError::LengthMismatch { expected: 32, actual: 16 }));
    assert_eq!(shape_of(0, 0, 1), Err(CodecError::LengthMismatch { expected: 0, actual: 1 }));
    assert_eq!(BodyShape::Rgba.group_size(), 8);
    assert_eq!(BodyShape::Rgb.group_size(), 6);
}

#[test]
fn decode_text_strips_then_decodes() {
    let image = decode_text(1, 2, b"01020304\n05060708\n").unwrap();
    assert_eq!(image.channels(), &[1, 2, 3, 4, 5, 6, 7, 8]);
    assert_eq!(
        decode_body(1, 2, b"01020304\n05060708\n"),
        Err(CodecError::LengthMismatch { expected: 16, actual: 18 })
    );
}

#[test]
fn native_functions_use_the_order_of_the_machine() {
    let image = two_by_one();
    let bytes = encode_native(&image, EncodeMode::RgbaCompact);
    assert_eq!(bytes[..4], 2u32.to_ne_bytes());
    assert_eq!(bytes[4..8], 1u32.to_ne_bytes());
    assert_eq!(bytes, encode(&image, EncodeMode::RgbaCompact, host_byte_order()));
    assert_eq!(decode_native(&bytes), Ok(image));
}

#[test]
fn append_adds_at_the_end() {
    let mut bytes = vec![1u8, 2];
    append(&mut bytes, &[3, 4, 5]);
    assert_eq!(bytes, vec![1, 2, 3, 4, 5]);
    append(&mut bytes, &[]);
    assert_eq!(bytes, vec![1, 2, 3, 4, 5]);
}

#[test]
fn pixel_buffer_takes_four_channels_for_each_pixel() {
    let image = PixelBuffer::new(2, 3, vec![9; 24]).unwrap();
    assert_eq!(image.width(), 2);
    assert_eq!(image.height(), 3);
    assert_eq!(image.pixel_count(), 6);
    assert_eq!(image.channels().len(), 24);
    assert_eq!(image.clone(), image);
}

#[test]
fn pixel_buffer_of_another_length_is_a_size_mismatch() {
    assert_eq!(PixelBuffer::new(2, 3, vec![9; 23]), Err(CodecError::SizeMismatch));
    assert_eq!(PixelBuffer::new(2, 3, vec![9; 25]), Err(CodecError::SizeMismatch));
    assert_eq!(PixelBuffer::new(0, 3, vec![9; 4]), Err(CodecError::SizeMismatch));
    assert_eq!(PixelBuffer::new(u32::MAX, u32::MAX, Vec::new()), Err(CodecError::SizeMismatch));
}

#[test]
fn channel_count_is_exact_for_the_largest_size() {
    assert_eq!(channel_count(3, 5), 60);
    assert_eq!(channel_count(0, 5), 0);
    assert_eq!(channel_count(u32::MAX, u32::MAX), (u32::MAX as u128) * (u32::MAX as u128) * 4);
}
