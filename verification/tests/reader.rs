use farbfeld::{read_header, read_image_data, read_u16, read_u32, DecodeError, Pixel, Reader};

#[test]
fn new_reader_has_read_nothing() {
    let data = [1u8, 2, 3];
    let reader = Reader::new(&data);
    assert_eq!(reader.position(), 0);
}

#[test]
fn read_exact_hands_out_the_next_bytes() {
    let data = [1u8, 2, 3, 4, 5];
    let mut reader = Reader::new(&data);
    assert_eq!(reader.read_exact(2), Ok(&data[0..2]));
    assert_eq!(reader.position(), 2);
    assert_eq!(reader.read_exact(3), Ok(&data[2..5]));
    assert_eq!(reader.position(), 5);
    assert_eq!(reader.read_exact(0), Ok(&data[5..5]));
    assert_eq!(reader.position(), 5);
}

#[test]
fn read_exact_reads_nothing_when_short() {
    let data = [1u8, 2, 3];
    let mut reader = Reader::new(&data);
    assert_eq!(reader.read_exact(4), Err(DecodeError::TruncatedInput));
    assert_eq!(reader.position(), 0);
    assert_eq!(reader.read_exact(usize::MAX), Err(DecodeError::TruncatedInput));
    assert_eq!(reader.read_exact(3), Ok(&data[..]));
}

#[test]
fn read_header_accepts_the_signature() {
    let mut reader = Reader::new(b"farbfeld and more");
    assert_eq!(read_header(&mut reader), Ok(()));
    assert_eq!(reader.position(), 8);
}

#[test]
fn read_header_rejects_another_signature() {
    let mut reader = Reader::new(b"farbfelt and more");
    assert_eq!(read_header(&mut reader), Err(DecodeError::BadMagic));
    assert_eq!(reader.position(), 8);
}

#[test]
fn read_header_rejects_each_wrong_byte() {
    for i in 0..8 {
        let mut bytes = b"farbfeld".to_vec();
        bytes[i] ^= 0x20;
        let mut reader = Reader::new(&bytes);
        assert_eq!(read_header(&mut reader), Err(DecodeError::BadMagic));
    }
}

#[test]
fn read_header_needs_eight_bytes() {
    let mut reader = Reader::new(b"farbfel");
    assert_eq!(read_header(&mut reader), Err(DecodeError::TruncatedInput));
    assert_eq!(reader.position(), 0);
}

#[test]
fn read_u32_reads_four_bytes() {
    let data = [0xaau8, 0xbb, 0xcc, 0xdd, 0x01];
    let mut reader = Reader::new(&data);
    assert_eq!(read_u32(&mut reader), Ok(0xaabbccdd));
    assert_eq!(reader.position(), 4);
    assert_eq!(read_u32(&mut reader), Err(DecodeError::TruncatedInput));
    assert_eq!(reader.position(), 4);
}

#[test]
fn read_u16_reads_two_bytes() {
    let data = [0xaau8, 0xbb, 0x01];
    let mut reader = Reader::new(&data);
    assert_eq!(read_u16(&mut reader), Ok(0xaabb));
    assert_eq!(reader.position(), 2);
    assert_eq!(read_u16(&mut reader), Err(DecodeError::TruncatedInput));
    assert_eq!(reader.position(), 2);
}

#[test]
fn read_image_data_reads_channels_in_order() {
    let data = [
        0x00u8, 0x01, 0x00, 0x02, 0x00, 0x03, 0x00, 0x04, 0x12, 0x34, 0x56, 0x78, 0x9a, 0xbc,
        0xde, 0xf0, 0xff,
    ];
    let mut reader = Reader::new(&data);
    let pixels = read_image_data(&mut reader, 2);
    assert_eq!(
        pixels,
        Ok(vec![
            Pixel { r: 1, g: 2, b: 3, a: 4 },
            Pixel { r: 0x1234, g: 0x5678, b: 0x9abc, a: 0xdef0 },
        ])
    );
    assert_eq!(reader.position(), 16);
}

#[test]
fn read_image_data_of_no_pixels_reads_nothing() {
    let data = [7u8; 8];
    let mut reader = Reader::new(&data);
    assert_eq!(read_image_data(&mut reader, 0), Ok(vec![]));
    assert_eq!(reader.position(), 0);
    let mut empty = Reader::new(&[]);
    assert_eq!(read_image_data(&mut empty, 0), Ok(vec![]));
}

#[test]
fn read_image_data_stops_before_the_channel_cut_short() {
    // One whole pixel, then red and green of the next, then half of blue.
    let data = [0u8, 1, 0, 2, 0, 3, 0, 4, 0, 5, 0, 6, 0];
    let mut reader = Reader::new(&data);
    assert_eq!(read_image_data(&mut reader, 2), Err(DecodeError::TruncatedInput));
    assert_eq!(reader.position(), 12);
}

#[test]
fn read_image_data_fails_on_a_huge_count() {
    let data = [0u8; 16];
    let mut reader = Reader::new(&data);
    assert_eq!(read_image_data(&mut reader, usize::MAX), Err(DecodeError::TruncatedInput));
    assert_eq!(reader.position(), 16);
}
