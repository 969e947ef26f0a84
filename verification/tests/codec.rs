use serial_mcp_server::codec::{decode, encode, CodecError, Encoding};

#[test]
fn encoding_from_str_accepts_aliases() {
    assert_eq!("utf8".parse::<Encoding>().unwrap(), Encoding::Utf8);
    assert_eq!("UTF-8".parse::<Encoding>().unwrap(), Encoding::Utf8);
    assert_eq!("Hex".parse::<Encoding>().unwrap(), Encoding::Hex);
    assert_eq!("b64".parse::<Encoding>().unwrap(), Encoding::Base64);
}

#[test]
fn encoding_from_str_rejects_unknown() {
    assert!("rot13".parse::<Encoding>().is_err());
}

#[test]
fn utf8_roundtrip() {
    let bytes = decode(Encoding::Utf8, "Hello, 世界!").unwrap();
    assert_eq!(encode(Encoding::Utf8, &bytes).unwrap(), "Hello, 世界!");
}

#[test]
fn utf8_encode_rejects_invalid_bytes() {
    assert!(encode(Encoding::Utf8, &[0xFF, 0xFE]).is_err());
}

#[test]
fn hex_roundtrip() {
    assert_eq!(decode(Encoding::Hex, "48656c6c6f").unwrap(), b"Hello");
    assert_eq!(decode(Encoding::Hex, "48 65 6c 6c 6f").unwrap(), b"Hello");
    assert_eq!(decode(Encoding::Hex, "48656C6C6F").unwrap(), b"Hello");
    assert_eq!(encode(Encoding::Hex, b"Hello").unwrap(), "48 65 6c 6c 6f");
}

#[test]
fn hex_odd_length_rejected() {
    assert!(matches!(
        decode(Encoding::Hex, "48656c6c6"),
        Err(CodecError::HexOddLength)
    ));
}

#[test]
fn hex_invalid_chars_rejected() {
    assert!(matches!(
        decode(Encoding::Hex, "48656cXY"),
        Err(CodecError::InvalidHex(_))
    ));
}

#[test]
fn base64_roundtrip_and_padding_variants() {
    assert_eq!(
        decode(Encoding::Base64, "SGVsbG8gV29ybGQ=").unwrap(),
        b"Hello World"
    );
    assert_eq!(
        decode(Encoding::Base64, "SGVsbG8gV29ybGQ").unwrap(),
        b"Hello World"
    );
    assert_eq!(
        encode(Encoding::Base64, b"Hello World").unwrap(),
        "SGVsbG8gV29ybGQ="
    );
}

#[test]
fn binary_roundtrips_via_hex_and_base64() {
    let data: &[u8] = b"Hello, World! 123 \x00\xFF";
    let hex = encode(Encoding::Hex, data).unwrap();
    assert_eq!(decode(Encoding::Hex, &hex).unwrap(), data);
    let b64 = encode(Encoding::Base64, data).unwrap();
    assert_eq!(decode(Encoding::Base64, &b64).unwrap(), data);
}

// ---- further cases ----------------------------------------------------------

#[test]
fn encoding_names_and_parse_roundtrip() {
    for e in [Encoding::Utf8, Encoding::Hex, Encoding::Base64] {
        let name = e.to_string();
        assert_eq!(Encoding::parse(&name).unwrap(), e);
    }
    assert_eq!(Encoding::Utf8.to_string(), "utf8");
    assert_eq!(Encoding::Hex.to_string(), "hex");
    assert_eq!(Encoding::Base64.to_string(), "base64");
    assert_eq!(Encoding::parse("BASE64").unwrap(), Encoding::Base64);
}

#[test]
fn unknown_encoding_error_carries_the_name() {
    match Encoding::parse("rot13") {
        Err(CodecError::UnknownEncoding(name)) => assert_eq!(name, "rot13"),
        _ => panic!("rot13 must be refused"),
    }
    let e = Encoding::parse("rot13").unwrap_err();
    assert_eq!(e.message(), "Unknown encoding: rot13");
}

#[test]
fn invalid_base64_is_refused() {
    assert!(matches!(
        decode(Encoding::Base64, "!!!!"),
        Err(CodecError::InvalidBase64(_))
    ));
}

#[test]
fn invalid_utf8_error_kind() {
    assert!(matches!(
        encode(Encoding::Utf8, &[0xC3]),
        Err(CodecError::InvalidUtf8(_))
    ));
}

#[test]
fn empty_inputs_encode_and_decode_to_empty() {
    assert_eq!(decode(Encoding::Hex, "").unwrap(), Vec::<u8>::new());
    assert_eq!(decode(Encoding::Base64, "").unwrap(), Vec::<u8>::new());
    assert_eq!(decode(Encoding::Utf8, "").unwrap(), Vec::<u8>::new());
    assert_eq!(encode(Encoding::Hex, b"").unwrap(), "");
    assert_eq!(encode(Encoding::Base64, b"").unwrap(), "");
}

#[test]
fn hex_encoding_is_lowercase_and_spaced() {
    assert_eq!(encode(Encoding::Hex, &[0x00, 0xAB, 0xff]).unwrap(), "00 ab ff");
    assert_eq!(decode(Encoding::Hex, "00 AB ff").unwrap(), vec![0x00, 0xab, 0xff]);
}

#[test]
fn base64_two_byte_tail_pads_once() {
    assert_eq!(encode(Encoding::Base64, b"ab").unwrap(), "YWI=");
    assert_eq!(encode(Encoding::Base64, b"a").unwrap(), "YQ==");
    assert_eq!(decode(Encoding::Base64, "YQ").unwrap(), b"a");
}
