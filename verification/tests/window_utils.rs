use mymusic_daw::window_utils::{decode_window_handle, encode_window_handle};

#[test]
fn test_window_handle_encoding() {
    let handle: usize = 0x12345678;
    let encoded = encode_window_handle(handle).unwrap();
    let decoded = decode_window_handle(&encoded).unwrap();
    assert_eq!(handle, decoded);
}

#[test]
fn handles_are_little_endian_words_in_base64() {
    let encoded = encode_window_handle(1).unwrap();
    if usize::BITS == 64 {
        assert_eq!(encoded, "AQAAAAAAAAA=");
    } else {
        assert_eq!(encoded, "AQAAAA==");
    }
    assert_eq!(decode_window_handle(&encode_window_handle(usize::MAX).unwrap()).unwrap(), usize::MAX);
    assert_eq!(decode_window_handle(&encode_window_handle(0).unwrap()).unwrap(), 0);
}

#[test]
fn malformed_handle_texts_are_refused() {
    assert_eq!(decode_window_handle("AQID").unwrap_err(), "Invalid window handle size");
    let err = decode_window_handle("not base64!").unwrap_err();
    assert!(err.starts_with("Failed to decode window handle: "));
}
