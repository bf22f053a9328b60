//! The wire protocol: the version handshake, command decoding, size fields
//! and response headers. The caller reads and writes the stream; these
//! functions decide what the bytes mean and what is sent back.

use vstd::prelude::*;
use vstd::utf8::{decode_utf8, valid_utf8};

use crate::error::Error;
use crate::file_type::UnityFileType;
use crate::handlers::staging::unexpected_eof;
use crate::hex::{hex_char, hex_number, hex_number_below, UnityFileGuid, UnityFileHash};

verus! {

/// The one protocol version the server speaks.
pub const PROTOCOL_VERSION: u32 = 254;

/// Length of a size field: sixteen hex digits.
pub const SIZE_STRING_LENGTH: usize = 16;

/// Longest version text a client sends.
pub const VERSION_STRING_LENGTH: usize = 8;

/// Relies on `std::str::from_utf8`: the text of valid UTF-8, else an error.
#[verifier::external_body]
fn text_of(b: &[u8]) -> (r: Result<&str, std::str::Utf8Error>)
    ensures
        r is Ok <==> valid_utf8(b@),
        r matches Ok(s) ==> s@ == decode_utf8(b@),
{
    std::str::from_utf8(b)
}

/// Relies on `u32::from_str_radix` in base 16: an optional `+` and hex
/// digits of a value that fits, else an error.
#[verifier::external_body]
fn parse_hex_u32(s: &str) -> (r: Result<u32, std::num::ParseIntError>)
    ensures
        r is Ok <==> hex_number_below(s@, 0x1_0000_0000),
        r matches Ok(v) ==> v == hex_number(s@)->Some_0,
{
    u32::from_str_radix(s, 16)
}

/// Relies on `u64::from_str_radix` in base 16: an optional `+` and hex
/// digits of a value that fits, else an error.
#[verifier::external_body]
fn parse_hex_u64(s: &str) -> (r: Result<u64, std::num::ParseIntError>)
    ensures
        r is Ok <==> hex_number_below(s@, 0x1_0000_0000_0000_0000),
        r matches Ok(v) ==> v == hex_number(s@)->Some_0,
{
    u64::from_str_radix(s, 16)
}

/// What to do after a read of the version text.
#[derive(Debug, Clone, Copy, PartialEq, Eq, Structural)]
pub enum VersionRead {
    /// The version text is the first this many bytes.
    Complete(usize),
    /// Only one byte came: read once more after it.
    ReadMore,
}

/// Decides after a read of `n` bytes of the version text, `read_before`
/// bytes having come by earlier reads: nothing read is `ReadVersionError`; a
/// first read of a single byte asks for one more read; otherwise the text
/// is complete.
pub fn version_read_step(read_before: usize, n: usize) -> (r: Result<VersionRead, Error>)
    requires
        read_before + n <= VERSION_STRING_LENGTH,
    ensures
        n == 0 ==> (r matches Err(Error::ReadVersionError)),
        n != 0 && read_before == 0 && n == 1 ==> r == Ok::<VersionRead, Error>(
            VersionRead::ReadMore,
        ),
        n != 0 && !(read_before == 0 && n == 1) ==> r == Ok::<VersionRead, Error>(
            VersionRead::Complete((read_before + n) as usize),
        ),
{
    if n == 0 {
        Err(Error::ReadVersionError)
    } else if read_before == 0 && n == 1 {
        Ok(VersionRead::ReadMore)
    } else {
        Ok(VersionRead::Complete(read_before + n))
    }
}

/// Accepts the protocol version that the server speaks and nothing else.
pub fn check_version(version: u32) -> (r: Result<u32, Error>)
    ensures
        version == PROTOCOL_VERSION ==> r == Ok::<u32, Error>(PROTOCOL_VERSION),
        version != PROTOCOL_VERSION ==> (r matches Err(Error::WrongVersion(v)) && v == version),
{
    if version == PROTOCOL_VERSION {
        Ok(version)
    } else {
        Err(Error::WrongVersion(version))
    }
}

/// The version a client asked for, from the hex text it sent. Empty text
/// is `ReadVersionError`.
pub fn parse_version(text: &[u8]) -> (r: Result<u32, Error>)
    ensures
        text@.len() == 0 ==> r matches Err(Error::ReadVersionError),
        text@.len() > 0 && !valid_utf8(text@) ==> r matches Err(Error::Utf8Error(_)),
        text@.len() > 0 && valid_utf8(text@) && !hex_number_below(
            decode_utf8(text@),
            0x1_0000_0000,
        ) ==> r matches Err(Error::ParseIntError(_)),
        r is Ok <==> text@.len() > 0 && valid_utf8(text@) && hex_number_below(
            decode_utf8(text@),
            0x1_0000_0000,
        ),
        r matches Ok(v) ==> v == hex_number(decode_utf8(text@))->Some_0,
{
    if text.len() == 0 {
        return Err(Error::ReadVersionError);
    }
    match text_of(text) {
        Err(e) => Err(Error::Utf8Error(e)),
        Ok(s) => match parse_hex_u32(s) {
            Ok(v) => Ok(v),
            Err(e) => Err(Error::ParseIntError(e)),
        },
    }
}

proof fn lemma_version_text()
    ensures
        crate::hex::hex_encode(crate::hex::be_bytes(PROTOCOL_VERSION)) == seq![
            '0',
            '0',
            '0',
            '0',
            '0',
            '0',
            'f',
            'e',
        ],
{
    let n: u32 = 254;
    assert((n >> 24u32) & 0xffu32 == 0) by (bit_vector)
        requires
            n == 254,
    ;
    assert((n >> 16u32) & 0xffu32 == 0) by (bit_vector)
        requires
            n == 254,
    ;
    assert((n >> 8u32) & 0xffu32 == 0) by (bit_vector)
        requires
            n == 254,
    ;
    assert(n & 0xffu32 == 254) by (bit_vector)
        requires
            n == 254,
    ;
    let b = crate::hex::be_bytes(n);
    assert(b =~= seq![0u8, 0u8, 0u8, 254u8]);
    reveal_with_fuel(crate::hex::hex_encode, 5);
    assert(b.drop_last().drop_last().drop_last().drop_last() =~= Seq::<u8>::empty());
    assert(crate::hex::hex_encode(b) =~= seq!['0', '0', '0', '0', '0', '0', 'f', 'e']);
}

/// The reply to a version request: the accepted version as eight hex
/// digits, or `WrongVersion`.
pub fn version_reply(requested: u32) -> (r: Result<String, Error>)
    ensures
        requested == PROTOCOL_VERSION ==> (r matches Ok(s) && s@ == seq![
            '0',
            '0',
            '0',
            '0',
            '0',
            '0',
            'f',
            'e',
        ]),
        requested != PROTOCOL_VERSION ==> (r matches Err(Error::WrongVersion(v)) && v == requested),
{
    match check_version(requested) {
        Ok(v) => {
            let s = crate::hex::u32_to_be_hex_string(v);
            proof {
                lemma_version_text();
            }
            Ok(s)
        },
        Err(e) => Err(e),
    }
}

/// The size of an upload from its sixteen-digit hex field. A short field
/// means the stream ended: an I/O error.
pub fn parse_size(text: &[u8]) -> (r: Result<u64, Error>)
    ensures
        text@.len() != SIZE_STRING_LENGTH ==> r matches Err(Error::IoError(_)),
        text@.len() == SIZE_STRING_LENGTH && !valid_utf8(text@) ==> r matches Err(
            Error::Utf8Error(_),
        ),
        text@.len() == SIZE_STRING_LENGTH && valid_utf8(text@) && !hex_number_below(
            decode_utf8(text@),
            0x1_0000_0000_0000_0000,
        ) ==> r matches Err(Error::ParseIntError(_)),
        r is Ok <==> text@.len() == SIZE_STRING_LENGTH && valid_utf8(text@) && hex_number_below(
            decode_utf8(text@),
            0x1_0000_0000_0000_0000,
        ),
        r matches Ok(v) ==> v == hex_number(decode_utf8(text@))->Some_0,
{
    if text.len() != SIZE_STRING_LENGTH {
        return Err(Error::IoError(unexpected_eof()));
    }
    match text_of(text) {
        Err(e) => Err(Error::Utf8Error(e)),
        Ok(s) => match parse_hex_u64(s) {
            Ok(v) => Ok(v),
            Err(e) => Err(Error::ParseIntError(e)),
        },
    }
}

/// Hex digit `i` of the sixteen-digit form of `v`, most significant first.
pub open spec fn size_nibble(v: u64, i: int) -> u8 {
    ((v >> ((4 * (15 - i)) as u64)) & 0xfu64) as u8
}

/// The sixteen lowercase hex digits of `v`, most significant first.
pub open spec fn size_text(v: u64) -> Seq<char> {
    Seq::new(16, |i: int| hex_char(size_nibble(v, i)))
}

fn hex_digit_byte(d: u8) -> (r: u8)
    requires
        d < 16,
    ensures
        r == hex_char(d) as u8,
{
    if d < 10 {
        0x30u8 + d
    } else {
        0x61u8 + (d - 10)
    }
}

/// Appends the sixteen hex digits of `v` to `out`, as ASCII bytes.
fn push_size(out: &mut Vec<u8>, v: u64)
    ensures
        final(out)@ == old(out)@ + size_text(v).map_values(|c: char| c as u8),
{
    let ghost start = out@;
    let mut i: u64 = 0;
    while i < 16
        invariant
            i <= 16,
            out@ =~= start + size_text(v).map_values(|c: char| c as u8).subrange(0, i as int),
        decreases 16 - i,
    {
        let sh: u64 = v >> (4 * (15 - i));
        let d64: u64 = sh & 0xf;
        assert(d64 < 16) by (bit_vector)
            requires
                d64 == sh & 0xf,
        ;
        let d = d64 as u8;
        assert(d == size_nibble(v, i as int));
        out.push(hex_digit_byte(d));
        i = i + 1;
    }
}

/// The sixteen-digit hex field of a size.
pub fn size_string(v: u64) -> (r: Vec<u8>)
    ensures
        r@ == size_text(v).map_values(|c: char| c as u8),
{
    let mut out: Vec<u8> = Vec::new();
    push_size(&mut out, v);
    assert(out@ =~= size_text(v).map_values(|c: char| c as u8));
    out
}

/// The first byte of a command.
#[derive(Debug, Clone, Copy, PartialEq, Eq, Structural)]
pub enum CommandHead {
    Get,
    Transaction,
    Put,
    Quit,
}

/// A decoded command.
#[derive(Debug, Clone, Copy, PartialEq, Eq, Structural)]
pub enum Command {
    Get(UnityFileType),
    StartTransaction,
    EndTransaction,
    Put(UnityFileType),
    Quit,
}

/// What the first byte of a command says: `g`, `t`, `p` or `q`.
pub open spec fn head_of(b: u8) -> Option<CommandHead> {
    if b == 0x67u8 {
        Some(CommandHead::Get)
    } else if b == 0x74u8 {
        Some(CommandHead::Transaction)
    } else if b == 0x70u8 {
        Some(CommandHead::Put)
    } else if b == 0x71u8 {
        Some(CommandHead::Quit)
    } else {
        None
    }
}

/// Decodes the first byte of a command; any other byte is `UnknownCommand`.
pub fn decode_head(b: u8) -> (r: Result<CommandHead, Error>)
    ensures
        match head_of(b) {
            Some(h) => r == Ok::<CommandHead, Error>(h),
            None => (r matches Err(Error::UnknownCommand(x)) && x == b),
        },
{
    if b == 0x67u8 {
        Ok(CommandHead::Get)
    } else if b == 0x74u8 {
        Ok(CommandHead::Transaction)
    } else if b == 0x70u8 {
        Ok(CommandHead::Put)
    } else if b == 0x71u8 {
        Ok(CommandHead::Quit)
    } else {
        Err(Error::UnknownCommand(b))
    }
}

/// What the connection does with the byte read where a command starts, or
/// with the end of the stream there (`None`): the end of the stream and `q`
/// close the connection normally (`Ok(None)`), `g`, `t` and `p` begin a
/// command, and any other byte is `UnknownCommand`.
pub fn command_start(b: Option<u8>) -> (r: Result<Option<CommandHead>, Error>)
    ensures
        match b {
            None => r == Ok::<Option<CommandHead>, Error>(None),
            Some(x) => match head_of(x) {
                Some(CommandHead::Quit) => r == Ok::<Option<CommandHead>, Error>(None),
                Some(h) => r == Ok::<Option<CommandHead>, Error>(Some(h)),
                None => (r matches Err(Error::UnknownCommand(y)) && y == x),
            },
        },
{
    match b {
        None => Ok(None),
        Some(x) => match decode_head(x) {
            Ok(CommandHead::Quit) => Ok(None),
            Ok(h) => Ok(Some(h)),
            Err(e) => Err(e),
        },
    }
}

/// Decodes a command from its first byte's meaning and the byte after it:
/// a kind tag after `g` or `p` (any other byte is `UnknownFileTypeByte`),
/// `s` (start) or `e` (end) after `t`.
pub fn decode_command(head: CommandHead, sub: u8) -> (r: Result<Command, Error>)
    requires
        head != CommandHead::Quit,
    ensures
        head == CommandHead::Get ==> match UnityFileType::from_ext_char(sub) {
            Some(t) => r == Ok::<Command, Error>(Command::Get(t)),
            None => (r matches Err(Error::UnknownFileTypeByte(x)) && x == sub),
        },
        head == CommandHead::Put ==> match UnityFileType::from_ext_char(sub) {
            Some(t) => r == Ok::<Command, Error>(Command::Put(t)),
            None => (r matches Err(Error::UnknownFileTypeByte(x)) && x == sub),
        },
        head == CommandHead::Transaction ==> if sub == 0x73u8 {
            r == Ok::<Command, Error>(Command::StartTransaction)
        } else if sub == 0x65u8 {
            r == Ok::<Command, Error>(Command::EndTransaction)
        } else {
            (r matches Err(Error::UnknownTransactionCommand(x)) && x == sub)
        },
{
    match head {
        CommandHead::Get => match UnityFileType::try_from_ext_char(sub) {
            Ok(t) => Ok(Command::Get(t)),
            Err(()) => Err(Error::UnknownFileTypeByte(sub)),
        },
        CommandHead::Put => match UnityFileType::try_from_ext_char(sub) {
            Ok(t) => Ok(Command::Put(t)),
            Err(()) => Err(Error::UnknownFileTypeByte(sub)),
        },
        _ => {
            if sub == 0x73u8 {
                Ok(Command::StartTransaction)
            } else if sub == 0x65u8 {
                Ok(Command::EndTransaction)
            } else {
                Err(Error::UnknownTransactionCommand(sub))
            }
        },
    }
}

fn push_all(out: &mut Vec<u8>, b: &[u8])
    ensures
        final(out)@ == old(out)@ + b@,
{
    let mut i: usize = 0;
    while i < b.len()
        invariant
            i <= b@.len(),
            out@ =~= old(out)@ + b@.subrange(0, i as int),
        decreases b@.len() - i,
    {
        out.push(b[i]);
        i = i + 1;
    }
}

/// The reply to a `g` request that missed: `-`, the kind tag, identity and
/// content hash.
pub fn miss_header(t: UnityFileType, guid: &UnityFileGuid, hash: &UnityFileHash) -> (r: Vec<u8>)
    ensures
        r@ == seq![0x2du8, t.ext_char()] + guid@ + hash@,
{
    let mut out: Vec<u8> = Vec::new();
    out.push(0x2du8);
    out.push(t.to_ext_char());
    push_all(&mut out, guid.0.as_slice());
    push_all(&mut out, hash.0.as_slice());
    assert(out@ =~= seq![0x2du8, t.ext_char()] + guid@ + hash@);
    out
}

/// What precedes the artifact's bytes in the reply to a `g` request that
/// hit: `+`, the kind tag, the size as sixteen hex digits, identity and
/// content hash.
pub fn hit_header(t: UnityFileType, size: u64, guid: &UnityFileGuid, hash: &UnityFileHash) -> (r:
    Vec<u8>)
    ensures
        r@ == seq![0x2bu8, t.ext_char()] + size_text(size).map_values(|c: char| c as u8) + guid@
            + hash@,
{
    let mut out: Vec<u8> = Vec::new();
    out.push(0x2bu8);
    out.push(t.to_ext_char());
    push_size(&mut out, size);
    push_all(&mut out, guid.0.as_slice());
    push_all(&mut out, hash.0.as_slice());
    assert(out@ =~= seq![0x2bu8, t.ext_char()] + size_text(size).map_values(|c: char| c as u8)
        + guid@ + hash@);
    out
}

} // verus!
