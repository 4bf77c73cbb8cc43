use base64::engine::general_purpose::STANDARD;
use base64::Engine;
use terraps::base64::{decode, decode_bytes, encode, encode_bytes, DecodeError};

#[test]
fn encode_reference_vectors() {
    assert_eq!(encode(""), "".to_string());
    assert_eq!(encode("f"), "Zg==".to_string());
    assert_eq!(encode("fo"), "Zm8=".to_string());
    assert_eq!(encode("foo"), "Zm9v".to_string());
    assert_eq!(encode("foob"), "Zm9vYg==".to_string());
    assert_eq!(encode("fooba"), "Zm9vYmE=".to_string());
    assert_eq!(encode("foobar"), "Zm9vYmFy".to_string());
}

#[test]
fn encode_bytes_raw() {
    assert_eq!(encode_bytes(vec![0xff, 0x00, 0xab]), "/wCr".to_string());
    assert_eq!(encode_bytes(vec![]), "".to_string());
}

#[test]
fn encode_agrees_with_reference_implementation() {
    let samples: Vec<&[u8]> = vec![
        b"",
        b"a",
        b"ab",
        b"abc",
        b"hello world",
        b"\x00\x01\x02\xfe\xff",
    ];
    for bytes in samples {
        assert_eq!(encode_bytes(bytes.to_vec()), STANDARD.encode(bytes));
    }
}

#[test]
fn decode_reference_vectors() {
    assert_eq!(decode("").unwrap(), "".to_string());
    assert_eq!(decode("Zg==").unwrap(), "f".to_string());
    assert_eq!(decode("Zm8=").unwrap(), "fo".to_string());
    assert_eq!(decode("Zm9v").unwrap(), "foo".to_string());
    assert_eq!(decode("Zm9vYmFy").unwrap(), "foobar".to_string());
}

#[test]
fn decode_bytes_round_trip() {
    let data = vec![1u8, 2, 3, 250, 251, 252, 253];
    let text = encode_bytes(data.clone());
    assert_eq!(decode_bytes(text.as_str()).unwrap(), data);
}

#[test]
fn decode_rejects_bad_length() {
    assert_eq!(decode_bytes("Zg="), Err(DecodeError::InvalidBase64));
    assert_eq!(decode_bytes("Z"), Err(DecodeError::InvalidBase64));
}

#[test]
fn decode_rejects_bad_character() {
    assert_eq!(decode_bytes("Zg=!"), Err(DecodeError::InvalidBase64));
    assert_eq!(decode_bytes("Z g="), Err(DecodeError::InvalidBase64));
}

#[test]
fn decode_rejects_noncanonical_padding() {
    // 'k' carries low bits that padding would have to discard
    assert_eq!(decode_bytes("Zk=="), Err(DecodeError::InvalidBase64));
    assert_eq!(decode_bytes("Zm9=") .is_ok(), false);
}

#[test]
fn decode_rejects_padding_in_middle() {
    assert_eq!(decode_bytes("Zg==Zg=="), Err(DecodeError::InvalidBase64));
}

#[test]
fn decode_detects_invalid_utf8() {
    let text = encode_bytes(vec![0xff]);
    assert_eq!(decode(text.as_str()), Err(DecodeError::InvalidUtf8));
}
