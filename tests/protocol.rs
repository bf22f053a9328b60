use unity_cache_server::protocol::{
    check_version, command_start, decode_command, decode_head, hit_header, miss_header, parse_size,
    parse_version, size_string, version_read_step, version_reply, Command, CommandHead,
    VersionRead,
};
use unity_cache_server::{Error, HexString, UnityFileType};

#[test]
fn version_handshake() {
    assert_eq!(check_version(254).unwrap(), 254);
    for v in [1u32, 0, 99999] {
        assert!(matches!(check_version(v), Err(Error::WrongVersion(x)) if x == v));
        assert!(version_reply(v).is_err());
    }
    assert_eq!(version_reply(254).unwrap(), "000000fe");
}

#[test]
fn version_text() {
    assert_eq!(parse_version(b"fe").unwrap(), 254);
    assert_eq!(parse_version(b"000000FE").unwrap(), 254);
    assert!(matches!(parse_version(b""), Err(Error::ReadVersionError)));
    assert!(matches!(parse_version(b"xy"), Err(Error::ParseIntError(_))));
    assert!(matches!(parse_version(&[0xff, 0xfe]), Err(Error::Utf8Error(_))));
}

#[test]
fn size_field() {
    assert_eq!(parse_size(b"0000000000000004").unwrap(), 4);
    assert_eq!(parse_size(b"00000000000001Ff").unwrap(), 0x1ff);
    assert!(matches!(parse_size(b"0004"), Err(Error::IoError(_))));
    assert!(matches!(parse_size(b"000000000000000g"), Err(Error::ParseIntError(_))));
    assert_eq!(size_string(4), b"0000000000000004".to_vec());
    assert_eq!(size_string(u64::MAX), b"ffffffffffffffff".to_vec());
    assert_eq!(parse_size(&size_string(0xabcdef)).unwrap(), 0xabcdef);
}

#[test]
fn command_decoding() {
    assert_eq!(decode_head(b'g').unwrap(), CommandHead::Get);
    assert_eq!(decode_head(b'q').unwrap(), CommandHead::Quit);
    assert!(matches!(decode_head(b'z'), Err(Error::UnknownCommand(b'z'))));
    assert_eq!(decode_command(CommandHead::Get, b'i').unwrap(), Command::Get(UnityFileType::Info));
    assert_eq!(decode_command(CommandHead::Put, b'r').unwrap(), Command::Put(UnityFileType::Resource));
    assert_eq!(decode_command(CommandHead::Transaction, b's').unwrap(), Command::StartTransaction);
    assert_eq!(decode_command(CommandHead::Transaction, b'e').unwrap(), Command::EndTransaction);
    assert!(matches!(decode_command(CommandHead::Get, b'x'), Err(Error::UnknownFileTypeByte(b'x'))));
    assert!(matches!(decode_command(CommandHead::Put, b'x'), Err(Error::UnknownFileTypeByte(b'x'))));
    assert!(matches!(
        decode_command(CommandHead::Transaction, b'x'),
        Err(Error::UnknownTransactionCommand(b'x'))
    ));
}

#[test]
fn response_headers() {
    let g = HexString([1u8; 16]);
    let h = HexString([2u8; 16]);
    let miss = miss_header(UnityFileType::Asset, &g, &h);
    assert_eq!(miss.len(), 34);
    assert_eq!(&miss[..2], b"-a");
    assert_eq!(&miss[2..18], &[1u8; 16]);
    let hit = hit_header(UnityFileType::Info, 4, &g, &h);
    assert_eq!(&hit[..18], b"+i0000000000000004");
    assert_eq!(&hit[34..], &[2u8; 16]);
}

#[test]
fn command_start_and_close() {
    assert_eq!(command_start(None).unwrap(), None);
    assert_eq!(command_start(Some(b'q')).unwrap(), None);
    assert_eq!(command_start(Some(b't')).unwrap(), Some(CommandHead::Transaction));
    assert_eq!(command_start(Some(b'p')).unwrap(), Some(CommandHead::Put));
    assert!(matches!(command_start(Some(0)), Err(Error::UnknownCommand(0))));
}

#[test]
fn version_reads() {
    assert!(matches!(version_read_step(0, 0), Err(Error::ReadVersionError)));
    assert_eq!(version_read_step(0, 1).unwrap(), VersionRead::ReadMore);
    assert_eq!(version_read_step(0, 2).unwrap(), VersionRead::Complete(2));
    assert_eq!(version_read_step(1, 1).unwrap(), VersionRead::Complete(2));
    assert!(matches!(version_read_step(1, 0), Err(Error::ReadVersionError)));
}
