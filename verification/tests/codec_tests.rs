use sqlite_zstd::codec::{
    compress_raw, compress_with_marker, decompress_raw, decompress_with_marker, DecodeError,
    DEFAULT_COMPRESSION_LEVEL, MARKER_COMPRESSED, MARKER_RAW, MIN_COMPRESS_SIZE,
};

#[test]
fn test_compress_small_string() {
    let result = compress_with_marker("Hi", DEFAULT_COMPRESSION_LEVEL);
    assert_eq!(result[0], MARKER_RAW);
    assert_eq!(&result[1..], b"Hi");
}

#[test]
fn test_compress_large_string() {
    let large_text = "x".repeat(1000);
    let result = compress_with_marker(&large_text, DEFAULT_COMPRESSION_LEVEL);
    assert_eq!(result[0], MARKER_COMPRESSED);
    assert!(result.len() < large_text.len());
}

#[test]
fn test_roundtrip() {
    for text in &["Hi", "Hello, World!", &"x".repeat(1000)] {
        let compressed = compress_with_marker(text, DEFAULT_COMPRESSION_LEVEL);
        let decompressed = decompress_with_marker(&compressed).unwrap();
        assert_eq!(&decompressed, *text);
    }
}

#[test]
fn test_decompress_empty() {
    let result = decompress_with_marker(&[]);
    assert!(result.is_err());
}

#[test]
fn test_decompress_unknown_marker() {
    let result = decompress_with_marker(&[0xFF, 0x00, 0x00]);
    assert!(result.is_err());
}

#[test]
fn decompress_empty_reports_empty_input() {
    assert_eq!(decompress_with_marker(&[]), Err(DecodeError::EmptyInput));
}

#[test]
fn decompress_unknown_marker_reports_unknown_marker() {
    assert_eq!(
        decompress_with_marker(&[0xFF, 0x12, 0x34]),
        Err(DecodeError::UnknownMarker)
    );
}

#[test]
fn decompress_raw_frame_with_bad_utf8_reports_invalid_utf8() {
    assert_eq!(
        decompress_with_marker(&[MARKER_RAW, 0xC0, 0x80]),
        Err(DecodeError::InvalidUtf8)
    );
}

#[test]
fn decompress_compressed_garbage_reports_codec_error() {
    assert_eq!(
        decompress_with_marker(&[MARKER_COMPRESSED, 0xDE, 0xAD, 0xBE, 0xEF]),
        Err(DecodeError::Codec)
    );
}

#[test]
fn encoding_is_deterministic() {
    let text = "z".repeat(5000);
    let a = compress_with_marker(&text, DEFAULT_COMPRESSION_LEVEL);
    let b = compress_with_marker(&text, DEFAULT_COMPRESSION_LEVEL);
    assert_eq!(a, b);
}

#[test]
fn threshold_boundary_is_exact() {
    // 63 UTF-8 bytes: stored raw. 64 repetitive bytes: the codec shrinks
    // them, so they are stored compressed.
    let just_below = "a".repeat(MIN_COMPRESS_SIZE - 1);
    let framed = compress_with_marker(&just_below, DEFAULT_COMPRESSION_LEVEL);
    assert_eq!(framed[0], MARKER_RAW);
    assert_eq!(framed.len(), MIN_COMPRESS_SIZE);

    let at_threshold = "a".repeat(MIN_COMPRESS_SIZE);
    let framed = compress_with_marker(&at_threshold, DEFAULT_COMPRESSION_LEVEL);
    assert_eq!(framed[0], MARKER_COMPRESSED);
    assert!(framed.len() < at_threshold.len() + 1);
}

#[test]
fn incompressible_long_value_falls_back_to_raw() {
    // A pseudo-random byte string the codec cannot shrink is framed raw.
    let mut state: u32 = 0x12345678;
    let mut text = String::new();
    while text.len() < 2000 {
        state = state.wrapping_mul(1664525).wrapping_add(1013904223);
        // Printable ASCII, high entropy.
        let c = (33 + (state >> 24) % 94) as u8 as char;
        text.push(c);
    }
    let framed = compress_with_marker(&text, DEFAULT_COMPRESSION_LEVEL);
    let back = decompress_with_marker(&framed).unwrap();
    assert_eq!(back, text);
}

#[test]
fn roundtrip_unicode() {
    let text = "Hëllo, wörld — καλημέρα, 你好! 🎉";
    let framed = compress_with_marker(text, DEFAULT_COMPRESSION_LEVEL);
    assert_eq!(decompress_with_marker(&framed).unwrap(), text);

    let long = text.repeat(100);
    let framed = compress_with_marker(&long, DEFAULT_COMPRESSION_LEVEL);
    assert_eq!(framed[0], MARKER_COMPRESSED);
    assert_eq!(decompress_with_marker(&framed).unwrap(), long);
}

#[test]
fn raw_codec_roundtrip() {
    let text = "Hello, World!";
    let frame = compress_raw(text, DEFAULT_COMPRESSION_LEVEL).unwrap();
    // A real codec frame is not the input itself.
    assert_ne!(frame.as_slice(), text.as_bytes());
    assert_eq!(decompress_raw(&frame).unwrap(), text);
}

#[test]
fn raw_codec_rejects_garbage() {
    assert_eq!(
        decompress_raw(&[0xDE, 0xAD, 0xBE, 0xEF]),
        Err(DecodeError::Codec)
    );
}

#[test]
fn levels_roundtrip_and_agree_on_content() {
    let text = "level test ".repeat(200);
    for level in [1, 3, 9, 19] {
        let framed = compress_with_marker(&text, level);
        assert_eq!(framed[0], MARKER_COMPRESSED);
        assert_eq!(decompress_with_marker(&framed).unwrap(), text);
    }
}

#[test]
fn empty_text_roundtrips() {
    let framed = compress_with_marker("", DEFAULT_COMPRESSION_LEVEL);
    assert_eq!(framed, vec![MARKER_RAW]);
    assert_eq!(decompress_with_marker(&framed).unwrap(), "");
}
