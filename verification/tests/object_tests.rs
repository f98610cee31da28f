use toyasm::object::{
    le_bytes_to_words, legacy_bytes_to_words, object_bytes, object_words, words_to_le_bytes,
    words_to_legacy_bytes, ObjectFormat, LEGACY_MAGIC,
};

#[test]
fn words_store_least_significant_byte_first() {
    let words = [0x11223344u32, 0x000A0042];
    let bytes = words_to_le_bytes(&words);
    assert_eq!(bytes, vec![0x44, 0x33, 0x22, 0x11, 0x42, 0x00, 0x0A, 0x00]);
}

#[test]
fn raw_stream_round_trips() {
    let words = [0u32, 0x000A0042, 0xFFFFFFFF, 0b11111111111_00010_00001_11000_000011];
    let bytes = words_to_le_bytes(&words);
    assert_eq!(bytes.len(), 16);
    let back = le_bytes_to_words(&bytes);
    assert_eq!(back, words.to_vec());
}

#[test]
fn trailing_partial_word_is_discarded() {
    let bytes = [0x44u8, 0x33, 0x22, 0x11, 0x99, 0x98];
    let words = le_bytes_to_words(&bytes);
    assert_eq!(words, vec![0x11223344]);
    assert_eq!(le_bytes_to_words(&[1, 2, 3]), Vec::<u32>::new());
}

#[test]
fn legacy_container_has_magic_count_and_big_endian_words() {
    let words = [0x11223344u32];
    let bytes = words_to_legacy_bytes(&words);
    assert_eq!(
        bytes,
        vec![0x00, 0xC0, 0xFF, 0xEE, 0x00, 0x00, 0x00, 0x01, 0x11, 0x22, 0x33, 0x44]
    );
    assert_eq!(LEGACY_MAGIC, 0xC0FFEE);
}

#[test]
fn legacy_container_round_trips() {
    let words = [0u32, 42, 0xDEADBEEF];
    let bytes = words_to_legacy_bytes(&words);
    let back = legacy_bytes_to_words(&bytes).unwrap();
    assert_eq!(back, words.to_vec());
}

#[test]
fn legacy_container_rejects_bad_magic_and_bad_length() {
    // too short for a header
    assert!(legacy_bytes_to_words(&[0, 0xC0, 0xFF]).is_none());
    // wrong magic
    let mut bytes = words_to_legacy_bytes(&[7u32]);
    bytes[0] = 1;
    assert!(legacy_bytes_to_words(&bytes).is_none());
    // count does not match the data length
    let mut bytes2 = words_to_legacy_bytes(&[7u32]);
    bytes2[7] = 2;
    assert!(legacy_bytes_to_words(&bytes2).is_none());
}

#[test]
fn the_two_formats_do_not_interoperate() {
    let words = [0x11223344u32];
    let raw = object_bytes(ObjectFormat::RawLittleEndian, &words);
    let legacy = object_bytes(ObjectFormat::LegacyBigEndian, &words);
    assert_ne!(raw, legacy);
    // a raw stream is no legacy container
    assert!(object_words(ObjectFormat::LegacyBigEndian, &raw).is_none());
    // reading each format back yields the words
    assert_eq!(object_words(ObjectFormat::RawLittleEndian, &raw).unwrap(), words.to_vec());
    assert_eq!(object_words(ObjectFormat::LegacyBigEndian, &legacy).unwrap(), words.to_vec());
}
