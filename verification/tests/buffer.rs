use rusto::buffer::{BufferData, BufferError};

#[test]
fn empty_buffer_has_no_bytes() {
    let b = BufferData::new();
    assert_eq!(b.bytes.len(), 0);
}

#[test]
fn zero_initialized_buffer_is_zero() {
    let b = BufferData::new_zero_initialized(7);
    assert_eq!(b.bytes, vec![0u8; 7]);
}

#[test]
fn add_data_encodes_words_little_endian_in_order() {
    let mut b = BufferData::new();
    b.add_data(&vec![0x0403_0201u32, 0x0807_0605u32]);
    assert_eq!(b.bytes, vec![1u8, 2, 3, 4, 5, 6, 7, 8]);
    // a second append extends, it does not reorder
    b.add_data(&vec![0xffff_ffffu32]);
    assert_eq!(b.bytes.len(), 12);
    assert_eq!(&b.bytes[8..], &[0xffu8, 0xff, 0xff, 0xff]);
}

#[test]
fn new_initialized_matches_add_data() {
    let b = BufferData::new_initialized(vec![42u32, 7u32]);
    let mut c = BufferData::new();
    c.add_data(&vec![42u32, 7u32]);
    assert_eq!(b.bytes, c.bytes);
    assert_eq!(b.bytes.len(), 2 * 4);
}

#[test]
fn typed_round_trip_is_bit_exact() {
    // pushing a typed sequence then reading it back reconstructs it
    let words = vec![0u32, 1, 0x8000_0000, u32::MAX, 0xdead_beef];
    let b = BufferData::new_initialized(words.clone());
    assert_eq!(b.bytes.len(), words.len() * 4);
    let back = b.read_words(0, words.len()).unwrap();
    assert_eq!(back, words);
}

#[test]
fn update_region_overwrites_exactly_the_region() {
    let mut b = BufferData::new_zero_initialized(12);
    b.update_region(4, &vec![0x0403_0201u32]).unwrap();
    assert_eq!(b.bytes, vec![0u8, 0, 0, 0, 1, 2, 3, 4, 0, 0, 0, 0]);
    let back = b.read_words(4, 1).unwrap();
    assert_eq!(back, vec![0x0403_0201u32]);
}

#[test]
fn update_region_out_of_bounds_fails_and_changes_nothing() {
    let mut b = BufferData::new_zero_initialized(8);
    let r = b.update_region(8, &vec![1u32]);
    assert_eq!(r, Err(BufferError::RegionOutOfBounds));
    assert_eq!(b.bytes, vec![0u8; 8]);
    let r2 = b.update_region(5, &vec![1u32]);
    assert_eq!(r2, Err(BufferError::RegionOutOfBounds));
    assert_eq!(b.bytes, vec![0u8; 8]);
}

#[test]
fn read_words_out_of_bounds_fails() {
    let b = BufferData::new_zero_initialized(8);
    assert!(b.read_words(0, 2).is_ok());
    assert_eq!(b.read_words(4, 2), Err(BufferError::RegionOutOfBounds));
}
