use unity_cache_server::protocol::parse_version;
use unity_cache_server::{decode_hex, DecodeHexError, Error};

#[test]
fn error_messages() {
    assert_eq!(Error::ReadVersionError.message(), "read version error");
    assert_eq!(Error::WrongVersion(1).message(), "wrong version: 1");
    assert_eq!(Error::UnknownCommand(b'z').message(), "unknown command: 122");
    assert_eq!(Error::UnknownFileTypeByte(0).message(), "unknown file type byte: 0");
    assert_eq!(Error::UnknownTransactionCommand(255).message(), "unknown transaction command: 255");
    assert_eq!(Error::UnknownPushCommand(10).message(), "unknown push command: 10");
    assert_eq!(
        Error::FileTooLarge { max_size: 100, size: 12345 }.message(),
        "file too large: 12345. max size: 100. size"
    );
    assert_eq!(Error::NotInTransaction.message(), "not in transaction");
    assert_eq!(Error::UnknownError.message(), "unknown error");
    assert_eq!(Error::UnknownFileTypeExt("x\"y".to_string()).message(), "unknown file type ext: \"x\\\"y\"");
    assert_eq!(Error::HandlerError("bad".to_string()).message(), "handler error: \"bad\"");
}

#[test]
fn wrapped_error_messages() {
    let e = parse_version(b"zz").unwrap_err();
    assert_eq!(e.message(), "parse int error: ParseIntError { kind: InvalidDigit }");
    let u = parse_version(&[0xff]).unwrap_err();
    assert!(u.message().starts_with("utf8 error: Utf8Error"));
    let io = Error::IoError(std::io::Error::from(std::io::ErrorKind::UnexpectedEof));
    assert_eq!(io.message(), "io error: Kind(UnexpectedEof)");
}

#[test]
fn decode_hex_error_messages() {
    let mut buf = [0u8; 2];
    let e = decode_hex("abc", &mut buf).unwrap_err();
    assert_eq!(e.message(), "string length 3 is not two times buf length 2");
    assert_eq!(
        Error::DecodeHexError(e).message(),
        "decode hex error: LengthNotMatched { string_len: 3, buf_len: 2 }"
    );
    let p = decode_hex("zz", &mut buf[..1]).unwrap_err();
    assert!(matches!(p, DecodeHexError::ParseIntError(_)));
    assert_eq!(p.message(), "parse int error: ParseIntError { kind: InvalidDigit }");
    assert_eq!(p.debug_text(), format!("{:?}", p));
}

