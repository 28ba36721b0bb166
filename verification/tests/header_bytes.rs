use silly_image::error::CodecError;
use silly_image::header::{
    host_byte_order, ne_vec_to_u32, order_of_probe, read_header, u32_from_bytes, u32_to_bytes,
    write_header, ByteOrder, HEADER_LEN,
};

#[test]
fn header_is_eight_bytes() {
    assert_eq!(HEADER_LEN, 8);
    assert_eq!(write_header(0, 0, ByteOrder::Little).len(), 8);
}

#[test]
fn number_in_little_order_starts_with_its_low_byte() {
    assert_eq!(u32_to_bytes(0x0102_0304, ByteOrder::Little), [4, 3, 2, 1]);
    assert_eq!(u32_to_bytes(2, ByteOrder::Little), [2, 0, 0, 0]);
}

#[test]
fn number_in_big_order_starts_with_its_high_byte() {
    assert_eq!(u32_to_bytes(0x0102_0304, ByteOrder::Big), [1, 2, 3, 4]);
    assert_eq!(u32_to_bytes(2, ByteOrder::Big), [0, 0, 0, 2]);
}

#[test]
fn number_bytes_agree_with_std() {
    for value in [0u32, 1, 255, 256, 65_535, 65_536, 0x00ff_ffff, 0x0100_0000, 0xdead_beef, u32::MAX] {
        assert_eq!(u32_to_bytes(value, ByteOrder::Little), value.to_le_bytes());
        assert_eq!(u32_to_bytes(value, ByteOrder::Big), value.to_be_bytes());
        assert_eq!(u32_from_bytes(&value.to_le_bytes(), ByteOrder::Little), value);
        assert_eq!(u32_from_bytes(&value.to_be_bytes(), ByteOrder::Big), value);
    }
}

#[test]
fn number_read_in_the_other_order_is_reversed() {
    assert_eq!(u32_from_bytes(&[1, 0, 0, 0], ByteOrder::Little), 1);
    assert_eq!(u32_from_bytes(&[1, 0, 0, 0], ByteOrder::Big), 0x0100_0000);
}

#[test]
fn header_is_width_then_height() {
    assert_eq!(write_header(2, 1, ByteOrder::Little), [2, 0, 0, 0, 1, 0, 0, 0]);
    assert_eq!(write_header(2, 1, ByteOrder::Big), [0, 0, 0, 2, 0, 0, 0, 1]);
    assert_eq!(
        write_header(0x1122_3344, 0x5566_7788, ByteOrder::Big),
        [0x11, 0x22, 0x33, 0x44, 0x55, 0x66, 0x77, 0x88]
    );
}

#[test]
fn header_read_back_in_its_order_gives_the_size() {
    for order in [ByteOrder::Little, ByteOrder::Big] {
        for (width, height) in [(0u32, 0u32), (2, 1), (640, 480), (u32::MAX, 1), (1, u32::MAX), (u32::MAX, u32::MAX)] {
            let header = write_header(width, height, order);
            assert_eq!(read_header(&header, order), Ok((width, height)));
        }
    }
}

#[test]
fn header_ignores_what_follows() {
    let bytes = [3, 0, 0, 0, 4, 0, 0, 0, b'F', b'F'];
    assert_eq!(read_header(&bytes, ByteOrder::Little), Ok((3, 4)));
}

#[test]
fn header_shorter_than_eight_bytes_is_truncated() {
    for len in 0..8 {
        let bytes = vec![0u8; len];
        assert_eq!(read_header(&bytes, ByteOrder::Little), Err(CodecError::TruncatedHeader));
        assert_eq!(read_header(&bytes, ByteOrder::Big), Err(CodecError::TruncatedHeader));
    }
}

#[test]
fn ne_vec_to_u32_reads_as_the_machine_does() {
    for bytes in [[1u8, 2, 3, 4], [0, 0, 0, 0], [255, 0, 0, 1], [0xde, 0xad, 0xbe, 0xef]] {
        assert_eq!(ne_vec_to_u32(&bytes), u32::from_ne_bytes(bytes));
    }
}

#[test]
fn probe_tells_the_orders_apart() {
    assert_eq!(order_of_probe(1), ByteOrder::Little);
    assert_eq!(order_of_probe(0x0100_0000), ByteOrder::Big);
}

#[test]
fn host_order_is_the_order_of_native_bytes() {
    let order = host_byte_order();
    for value in [1u32, 0x0102_0304, 0xdead_beef] {
        assert_eq!(u32_to_bytes(value, order), value.to_ne_bytes());
        assert_eq!(u32_from_bytes(&value.to_ne_bytes(), order), value);
    }
    let mut expected = Vec::new();
    expected.extend_from_slice(&7u32.to_ne_bytes());
    expected.extend_from_slice(&9u32.to_ne_bytes());
    assert_eq!(write_header(7, 9, order).to_vec(), expected);
}

#[test]
fn native_header_fields_read_back_as_written() {
    for (width, height) in [(0u32, 0u32), (2, 1), (640, 480), (0x0102_0304, 0xdead_beef), (u32::MAX, 1)] {
        let header = [width.to_ne_bytes(), height.to_ne_bytes()].concat();
        assert_eq!(ne_vec_to_u32(&header[0..4]), width);
        assert_eq!(ne_vec_to_u32(&header[4..8]), height);
        assert_eq!(read_header(&header, host_byte_order()), Ok((width, height)));
    }
}
