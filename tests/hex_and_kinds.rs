use unity_cache_server::{
    decode_hex, encode_hex, u32_to_be_hex_string, DecodeHexError, HexString, UnityFileGuid,
    UnityFileType,
};

#[test]
fn encode_hex_two_digits_per_byte() {
    assert_eq!(encode_hex(&[0xde, 0xad, 0x00, 0x0f]), "dead000f");
    assert_eq!(encode_hex(&[]), "");
}

#[test]
fn decode_hex_round_trip() {
    let mut buf = [0u8; 4];
    decode_hex("DEADbeef", &mut buf).unwrap();
    assert_eq!(buf, [0xde, 0xad, 0xbe, 0xef]);
    assert_eq!(encode_hex(&buf), "deadbeef");
}

#[test]
fn decode_hex_length_mismatch() {
    let mut buf = [0u8; 2];
    match decode_hex("abc", &mut buf) {
        Err(DecodeHexError::LengthNotMatched { string_len, buf_len }) => {
            assert_eq!(string_len, 3);
            assert_eq!(buf_len, 2);
        }
        other => panic!("unexpected {:?}", other),
    }
}

#[test]
fn decode_hex_bad_digit() {
    let mut buf = [0u8; 2];
    assert!(matches!(decode_hex("00zz", &mut buf), Err(DecodeHexError::ParseIntError(_))));
}

#[test]
fn decode_hex_plus_sign_pair() {
    let mut buf = [0u8; 1];
    decode_hex("+f", &mut buf).unwrap();
    assert_eq!(buf, [0x0f]);
}

#[test]
fn version_hex_text() {
    assert_eq!(u32_to_be_hex_string(254), "000000fe");
    assert_eq!(u32_to_be_hex_string(0x12345678), "12345678");
}

#[test]
fn hex_string_from_and_to_text() {
    let g: UnityFileGuid = HexString::from_hex_string("00000000000000000000000000000001".to_string()).unwrap();
    assert_eq!(g.0[15], 1);
    assert_eq!(g.to_hex_string(), "00000000000000000000000000000001");
    assert!(HexString::<16>::from_hex_string("01".to_string()).is_err());
    assert_eq!(HexString::<3>::new().0, [0, 0, 0]);
    assert!(g.equals(&g));
    assert!(!g.equals(&HexString::new()));
}

#[test]
fn kind_tags() {
    for (t, b, c, e) in [
        (UnityFileType::Asset, 0u8, b'a', "bin"),
        (UnityFileType::Info, 1, b'i', "info"),
        (UnityFileType::Resource, 2, b'r', "resource"),
    ] {
        assert_eq!(t.to_u8(), b);
        assert_eq!(UnityFileType::try_from_u8(b), Ok(t));
        assert_eq!(t.to_ext_char(), c);
        assert_eq!(UnityFileType::try_from_ext_char(c), Ok(t));
        assert_eq!(t.to_ext(), e);
        assert_eq!(UnityFileType::try_from_ext(e), Ok(t));
    }
    assert!(UnityFileType::try_from_u8(3).is_err());
    assert!(UnityFileType::try_from_ext_char(b'x').is_err());
    assert!(UnityFileType::try_from_ext("asset").is_err());
}

#[test]
fn decode_hex_non_ascii() {
    let mut one = [7u8; 1];
    assert!(matches!(
        decode_hex("\u{e9}a", &mut one),
        Err(DecodeHexError::LengthNotMatched { string_len: 3, buf_len: 1 })
    ));
    assert_eq!(one, [7]);
    let mut two = [7u8; 2];
    assert!(matches!(decode_hex("\u{e9}\u{e9}", &mut two), Err(DecodeHexError::ParseIntError(_))));
    assert!(matches!(decode_hex("0\u{e9}0", &mut two), Err(DecodeHexError::ParseIntError(_))));
    assert!(matches!(
        HexString::<1>::from_hex_string("\u{e9}".to_string()),
        Err(DecodeHexError::ParseIntError(_))
    ));
}

#[test]
fn hex_string_round_trip() {
    let x = HexString([0x00, 0x7f, 0x80, 0xff, 0x12]);
    let s = x.to_hex_string();
    assert_eq!(s, "007f80ff12");
    assert_eq!(HexString::<5>::from_hex_string(s).unwrap(), x);
}
