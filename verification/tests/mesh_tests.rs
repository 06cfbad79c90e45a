use pocketjs_kobo::mesh::{AssetError, Reader};

#[test]
fn the_reader_takes_little_endian_fields_in_order() {
    let bytes = [7u8, 0x34, 0x12, 0x78, 0x56, 0x34, 0x12, 3, 0, b'a', b'b', b'c'];
    let mut r = Reader::new(&bytes);
    assert_eq!(r.u8(), Ok(7));
    assert_eq!(r.u16(), Ok(0x1234));
    assert_eq!(r.u32(), Ok(0x1234_5678));
    assert_eq!(r.name(), Ok("abc".to_string()));
    assert_eq!(r.offset(), bytes.len());
    assert_eq!(r.u8(), Err(AssetError::Truncated));
    assert_eq!(r.offset(), bytes.len());
}

#[test]
fn a_short_read_is_truncated_and_leaves_the_cursor() {
    let bytes = [1u8, 2, 3];
    let mut r = Reader::new(&bytes);
    assert_eq!(r.take(2), Ok(&bytes[..2]));
    assert_eq!(r.take(2), Err(AssetError::Truncated));
    assert_eq!(r.offset(), 2);
    assert_eq!(r.take(usize::MAX), Err(AssetError::Limit));
}

#[test]
fn names_are_bounded_utf8() {
    let mut long = vec![129u8, 0];
    long.extend(vec![b'x'; 129]);
    assert_eq!(Reader::new(&long).name(), Err(AssetError::Limit));
    let bad = [2u8, 0, 0xff, 0xfe];
    assert_eq!(Reader::new(&bad).name(), Err(AssetError::Invalid));
    let short = [4u8, 0, b'a'];
    assert_eq!(Reader::new(&short).name(), Err(AssetError::Truncated));
    let snow = [3u8, 0, 0xe2, 0x98, 0x83];
    assert_eq!(Reader::new(&snow).name(), Ok("\u{2603}".to_string()));
}

#[test]
fn counts_and_floats_are_checked() {
    let bytes = 300u32.to_le_bytes();
    assert_eq!(Reader::new(&bytes).count(256), Err(AssetError::Limit));
    assert_eq!(Reader::new(&bytes).count(300), Ok(300));
    let one = 1.5f32.to_bits().to_le_bytes();
    assert_eq!(Reader::new(&one).float_bits(), Ok(1.5f32.to_bits()));
    let inf = f32::INFINITY.to_bits().to_le_bytes();
    assert_eq!(Reader::new(&inf).float_bits(), Err(AssetError::Invalid));
    let nan = f32::NAN.to_bits().to_le_bytes();
    assert_eq!(Reader::new(&nan).float_bits(), Err(AssetError::Invalid));
}
