//! Marker-byte compression protocol.
//!
//! A stored text value is framed as one marker byte followed by the payload:
//! `MARKER_RAW` announces the UTF-8 bytes of the text unchanged, and
//! `MARKER_COMPRESSED` announces a codec frame that decompresses to those
//! bytes. Short values are always stored raw, and a value the codec cannot
//! shrink falls back to raw framing, so framing never fails.

use vstd::prelude::*;
use vstd::slice::{slice_subrange, slice_to_vec};
use vstd::utf8::{decode_utf8, encode_utf8, encode_utf8_decode_utf8, encode_utf8_valid_utf8,
    valid_utf8};

verus! {

/// Leading byte of a stored value that holds raw UTF-8 text.
pub const MARKER_RAW: u8 = 0x00;

/// Leading byte of a stored value that holds codec-compressed text.
pub const MARKER_COMPRESSED: u8 = 0x01;

/// Texts whose UTF-8 encoding is shorter than this are stored raw
/// unconditionally: compression overhead would exceed any benefit.
pub const MIN_COMPRESS_SIZE: usize = 64;

/// Default codec level, a fixed mid-range value of the 1-22 scale.
pub const DEFAULT_COMPRESSION_LEVEL: i32 = 3;

/// Why a framed value could not be decoded back to text.
#[derive(Debug, Clone, Copy, PartialEq, Eq, Structural)]
pub enum DecodeError {
    /// The framed value held no bytes at all, not even a marker.
    EmptyInput,
    /// The leading byte was neither `MARKER_RAW` nor `MARKER_COMPRESSED`.
    UnknownMarker,
    /// The payload (after decompression, where applicable) was not UTF-8.
    InvalidUtf8,
    /// The codec rejected the compressed payload.
    Codec,
}

/// The bytes that the codec produces for `data` at `level`, or `None` when it
/// fails. Compression is deterministic, so this is a function of its
/// arguments; nothing further is assumed about the bytes themselves.
pub uninterp spec fn zstd_frame_of(data: Seq<u8>, level: int) -> Option<Seq<u8>>;

/// The bytes that the codec recovers from a compressed frame, or `None` when
/// the frame is rejected.
pub uninterp spec fn zstd_unframe_of(data: Seq<u8>) -> Option<Seq<u8>>;

/// Relies on `zstd::encode_all`: compression is a pure function of the input
/// bytes and the level, and decompressing its output returns the input.
#[verifier::external_body]
fn zstd_compress(data: &[u8], level: i32) -> (r: Option<Vec<u8>>)
    ensures
        match r {
            Some(v) => Some(v@) == zstd_frame_of(data@, level as int)
                && zstd_unframe_of(v@) == Some(data@),
            None => zstd_frame_of(data@, level as int) is None,
        },
{
    zstd::encode_all(data, level).ok()
}

/// Relies on `zstd::decode_all`: decompression is a pure function of the
/// input bytes, failing exactly where the codec rejects the frame.
#[verifier::external_body]
fn zstd_decompress(data: &[u8]) -> (r: Option<Vec<u8>>)
    ensures
        match r {
            Some(v) => zstd_unframe_of(data@) == Some(v@),
            None => zstd_unframe_of(data@) is None,
        },
{
    zstd::decode_all(data).ok()
}

/// Relies on `String::from_utf8`: it succeeds exactly on valid UTF-8 input
/// and yields the characters that the bytes encode.
#[verifier::external_body]
pub(crate) fn string_from_utf8(bytes: Vec<u8>) -> (r: Option<String>)
    ensures
        r is Some <==> valid_utf8(bytes@),
        r matches Some(s) ==> s@ == decode_utf8(bytes@),
{
    String::from_utf8(bytes).ok()
}

/// The framed bytes stored for `text` at codec level `level`: raw framing for
/// short texts, and for long ones the codec frame whenever the codec succeeds
/// and actually shrinks the payload, raw framing otherwise.
pub open spec fn framed_encoding(text: Seq<char>, level: int) -> Seq<u8> {
    let bytes = encode_utf8(text);
    if bytes.len() < MIN_COMPRESS_SIZE as int {
        seq![MARKER_RAW] + bytes
    } else {
        match zstd_frame_of(bytes, level) {
            Some(c) => if c.len() < bytes.len() {
                seq![MARKER_COMPRESSED] + c
            } else {
                seq![MARKER_RAW] + bytes
            },
            None => seq![MARKER_RAW] + bytes,
        }
    }
}

/// The text that `bytes` decodes to, or the reason it cannot.
pub open spec fn utf8_text_of(bytes: Seq<u8>) -> Result<Seq<char>, DecodeError> {
    if valid_utf8(bytes) {
        Ok(decode_utf8(bytes))
    } else {
        Err(DecodeError::InvalidUtf8)
    }
}

/// The text that a framed value decodes to, or the error that decoding it
/// reports.
pub open spec fn framed_decoding(data: Seq<u8>) -> Result<Seq<char>, DecodeError> {
    if data.len() == 0 {
        Err(DecodeError::EmptyInput)
    } else if data[0] == MARKER_RAW {
        utf8_text_of(data.skip(1))
    } else if data[0] == MARKER_COMPRESSED {
        match zstd_unframe_of(data.skip(1)) {
            Some(d) => utf8_text_of(d),
            None => Err(DecodeError::Codec),
        }
    } else {
        Err(DecodeError::UnknownMarker)
    }
}

/// Frame `text` for storage, compressing it when beneficial.
///
/// The result is exactly `framed_encoding(text@, level)`, a function of the
/// arguments alone, so framing the same text at the same level twice gives
/// byte-identical output; and decoding the result always recovers `text`.
pub fn compress_with_marker(text: &str, level: i32) -> (r: Vec<u8>)
    ensures
        r@ == framed_encoding(text@, level as int),
        framed_decoding(r@) == Ok::<Seq<char>, DecodeError>(text@),
{
    proof {
        encode_utf8_valid_utf8(text@);
        encode_utf8_decode_utf8(text@);
    }
    let bytes = text.as_bytes();
    if bytes.len() < MIN_COMPRESS_SIZE {
        let mut result = slice_to_vec(bytes);
        result.insert(0, MARKER_RAW);
        proof {
            assert(result@ =~= seq![MARKER_RAW] + encode_utf8(text@));
            assert(result@.skip(1) =~= encode_utf8(text@));
        }
        result
    } else {
        match zstd_compress(bytes, level) {
            Some(compressed) => {
                if compressed.len() < bytes.len() {
                    let ghost payload = compressed@;
                    let mut result = compressed;
                    result.insert(0, MARKER_COMPRESSED);
                    proof {
                        assert(result@ =~= seq![MARKER_COMPRESSED] + payload);
                        assert(result@.skip(1) =~= payload);
                        assert(result@[0] == MARKER_COMPRESSED);
                    }
                    result
                } else {
                    let mut result = slice_to_vec(bytes);
                    result.insert(0, MARKER_RAW);
                    proof {
                        assert(result@ =~= seq![MARKER_RAW] + encode_utf8(text@));
                        assert(result@.skip(1) =~= encode_utf8(text@));
                    }
                    result
                }
            },
            None => {
                let mut result = slice_to_vec(bytes);
                result.insert(0, MARKER_RAW);
                proof {
                    assert(result@ =~= seq![MARKER_RAW] + encode_utf8(text@));
                    assert(result@.skip(1) =~= encode_utf8(text@));
                }
                result
            },
        }
    }
}

/// Decode a framed value back to the text it stores.
///
/// Succeeds exactly where `framed_decoding` does and reports its error
/// otherwise: `EmptyInput` on no bytes, `UnknownMarker` on an unrecognised
/// leading byte, `Codec` where the codec rejects a compressed payload, and
/// `InvalidUtf8` where the payload is not UTF-8.
pub fn decompress_with_marker(data: &[u8]) -> (r: Result<String, DecodeError>)
    ensures
        match r {
            Ok(s) => framed_decoding(data@) == Ok::<Seq<char>, DecodeError>(s@),
            Err(e) => framed_decoding(data@) == Err::<Seq<char>, DecodeError>(e),
        },
{
    if data.len() == 0 {
        return Err(DecodeError::EmptyInput);
    }
    let marker = *vstd::slice::slice_index_get(data, 0);
    if marker == MARKER_RAW {
        let rest = slice_to_vec(slice_subrange(data, 1, data.len()));
        proof {
            assert(rest@ =~= data@.skip(1));
        }
        match string_from_utf8(rest) {
            Some(s) => Ok(s),
            None => Err(DecodeError::InvalidUtf8),
        }
    } else if marker == MARKER_COMPRESSED {
        let rest = slice_subrange(data, 1, data.len());
        proof {
            assert(rest@ =~= data@.skip(1));
        }
        match zstd_decompress(rest) {
            Some(payload) => match string_from_utf8(payload) {
                Some(s) => Ok(s),
                None => Err(DecodeError::InvalidUtf8),
            },
            None => Err(DecodeError::Codec),
        }
    } else {
        Err(DecodeError::UnknownMarker)
    }
}

/// Compress text with the codec alone, without marker framing.
pub fn compress_raw(text: &str, level: i32) -> (r: Option<Vec<u8>>)
    ensures
        match r {
            Some(v) => Some(v@) == zstd_frame_of(encode_utf8(text@), level as int)
                && zstd_unframe_of(v@) == Some(encode_utf8(text@)),
            None => zstd_frame_of(encode_utf8(text@), level as int) is None,
        },
{
    zstd_compress(text.as_bytes(), level)
}

/// Decompress a bare codec frame back to text, without marker framing.
pub fn decompress_raw(data: &[u8]) -> (r: Result<String, DecodeError>)
    ensures
        match r {
            Ok(s) => zstd_unframe_of(data@) matches Some(d) && utf8_text_of(d)
                == Ok::<Seq<char>, DecodeError>(s@),
            Err(e) => e == DecodeError::Codec && zstd_unframe_of(data@) is None
                || e == DecodeError::InvalidUtf8 && (zstd_unframe_of(data@) matches Some(d)
                    && !valid_utf8(d)),
        },
{
    match zstd_decompress(data) {
        Some(payload) => match string_from_utf8(payload) {
            Some(s) => Ok(s),
            None => Err(DecodeError::InvalidUtf8),
        },
        None => Err(DecodeError::Codec),
    }
}

/// A text stored below the size threshold is framed raw: the marker byte is
/// `MARKER_RAW` and the rest of the frame is exactly the UTF-8 encoding of
/// the text.
pub proof fn lemma_short_text_framed_raw(text: Seq<char>, level: int)
    requires
        encode_utf8(text).len() < MIN_COMPRESS_SIZE as int,
    ensures
        framed_encoding(text, level).len() == encode_utf8(text).len() + 1,
        framed_encoding(text, level)[0] == MARKER_RAW,
        framed_encoding(text, level).skip(1) == encode_utf8(text),
{
    assert(framed_encoding(text, level).skip(1) =~= encode_utf8(text));
}

/// A text at or above the size threshold that the codec shrinks is framed
/// compressed: the marker byte is `MARKER_COMPRESSED` and the whole frame is
/// shorter than the UTF-8 encoding of the text plus its marker.
pub proof fn lemma_shrinkable_text_framed_compressed(text: Seq<char>, level: int)
    requires
        encode_utf8(text).len() >= MIN_COMPRESS_SIZE as int,
        zstd_frame_of(encode_utf8(text), level) matches Some(c)
            && c.len() < encode_utf8(text).len(),
    ensures
        framed_encoding(text, level)[0] == MARKER_COMPRESSED,
        framed_encoding(text, level).len() < encode_utf8(text).len() + 1,
{
}

/// Framing is deterministic: any two framings of the same text at the same
/// level are byte-identical.
pub proof fn lemma_framing_deterministic(text: Seq<char>, level: int, r1: Seq<u8>, r2: Seq<u8>)
    requires
        r1 == framed_encoding(text, level),
        r2 == framed_encoding(text, level),
    ensures
        r1 == r2,
{
}

/// Decoding no bytes at all reports `EmptyInput`.
pub proof fn lemma_decode_empty()
    ensures
        framed_decoding(Seq::<u8>::empty()) == Err::<Seq<char>, DecodeError>(
            DecodeError::EmptyInput,
        ),
{
}

/// Decoding a frame whose leading byte is no known marker reports
/// `UnknownMarker`, whatever follows it.
pub proof fn lemma_decode_unknown_marker(data: Seq<u8>)
    requires
        data.len() > 0,
        data[0] != MARKER_RAW,
        data[0] != MARKER_COMPRESSED,
    ensures
        framed_decoding(data) == Err::<Seq<char>, DecodeError>(DecodeError::UnknownMarker),
{
}

} // verus!
