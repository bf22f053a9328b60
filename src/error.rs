//! Errors of the cache server, and their messages.

use vstd::prelude::*;

verus! {

/// `std::num::ParseIntError`, carried through as it is.
#[verifier::external_type_specification]
#[verifier::external_body]
pub struct ExParseIntError(std::num::ParseIntError);

/// `std::str::Utf8Error`, carried through as it is.
#[verifier::external_type_specification]
#[verifier::external_body]
pub struct ExUtf8Error(std::str::Utf8Error);

/// `std::io::Error`, carried through as it is.
#[verifier::external_type_specification]
#[verifier::external_body]
pub struct ExIoError(std::io::Error);

/// The text that `Debug` gives a string: quoted, with escapes.
pub uninterp spec fn str_debug_of(s: Seq<char>) -> Seq<char>;

/// Relies on `<str as Debug>::fmt`: the quoted form of a string, a function
/// of its characters.
#[verifier::external_body]
fn debug_str(s: &str) -> (r: String)
    ensures
        r@ == str_debug_of(s@),
{
    format!("{:?}", s)
}

/// Relies on `<ParseIntError as Debug>::fmt`.
#[verifier::external_body]
fn debug_parse_int_error(e: &std::num::ParseIntError) -> (r: String)
{
    format!("{:?}", e)
}

/// Relies on `<Utf8Error as Debug>::fmt`.
#[verifier::external_body]
fn debug_utf8_error(e: &std::str::Utf8Error) -> (r: String)
{
    format!("{:?}", e)
}

/// Relies on `<std::io::Error as Debug>::fmt`.
#[verifier::external_body]
fn debug_io_error(e: &std::io::Error) -> (r: String)
{
    format!("{:?}", e)
}

/// The decimal digits of `n`.
pub open spec fn decimal(n: nat) -> Seq<char>
    decreases n,
{
    if n < 10 {
        seq![digit_char(n)]
    } else {
        decimal(n / 10) + seq![digit_char(n % 10)]
    }
}

/// The character of a decimal digit.
pub open spec fn digit_char(d: nat) -> char {
    ((('0' as u8) as nat + d) as u8) as char
}

fn digit_str(d: u64) -> (r: &'static str)
    requires
        d < 10,
    ensures
        r@ == seq![digit_char(d as nat)],
{
    proof {
        reveal_strlit("0");
        reveal_strlit("1");
        reveal_strlit("2");
        reveal_strlit("3");
        reveal_strlit("4");
        reveal_strlit("5");
        reveal_strlit("6");
        reveal_strlit("7");
        reveal_strlit("8");
        reveal_strlit("9");
    }
    let r = match d {
        0 => "0",
        1 => "1",
        2 => "2",
        3 => "3",
        4 => "4",
        5 => "5",
        6 => "6",
        7 => "7",
        8 => "8",
        _ => "9",
    };
    assert(r@ =~= seq![digit_char(d as nat)]);
    r
}

/// Appends the decimal digits of `n` to `s`.
pub fn push_decimal(s: &mut String, n: u64)
    ensures
        final(s)@ == old(s)@ + decimal(n as nat),
    decreases n,
{
    if n < 10 {
        s.append(digit_str(n));
    } else {
        push_decimal(s, n / 10);
        s.append(digit_str(n % 10));
        assert(s@ =~= old(s)@ + decimal(n as nat));
    }
}

fn text(s: &str) -> (r: String)
    ensures
        r@ == s@,
{
    String::from_str(s)
}

/// Why a hex text could not be decoded into a byte buffer.
#[derive(Debug)]
pub enum DecodeHexError {
    LengthNotMatched { string_len: usize, buf_len: usize },
    ParseIntError(std::num::ParseIntError),
}

impl DecodeHexError {
    /// The message that describes the error.
    pub fn message(&self) -> (r: String)
        ensures
            self matches DecodeHexError::LengthNotMatched { string_len, buf_len } ==> r@
                == "string length "@ + decimal(string_len as nat) + " is not two times buf length "@
                + decimal(buf_len as nat),
            self matches DecodeHexError::ParseIntError(_) ==> r@.len() >= "parse int error: "@.len(),
    {
        match self {
            DecodeHexError::LengthNotMatched { string_len, buf_len } => {
                let mut s = text("string length ");
                push_decimal(&mut s, *string_len as u64);
                s.append(" is not two times buf length ");
                push_decimal(&mut s, *buf_len as u64);
                s
            },
            DecodeHexError::ParseIntError(e) => {
                let mut s = text("parse int error: ");
                let d = debug_parse_int_error(e);
                s.append(d.as_str());
                s
            },
        }
    }

    /// The `Debug` text of the error.
    pub fn debug_text(&self) -> (r: String)
        ensures
            self matches DecodeHexError::LengthNotMatched { string_len, buf_len } ==> r@
                == "LengthNotMatched { string_len: "@ + decimal(string_len as nat) + ", buf_len: "@
                + decimal(buf_len as nat) + " }"@,
    {
        match self {
            DecodeHexError::LengthNotMatched { string_len, buf_len } => {
                let mut s = text("LengthNotMatched { string_len: ");
                push_decimal(&mut s, *string_len as u64);
                s.append(", buf_len: ");
                push_decimal(&mut s, *buf_len as u64);
                s.append(" }");
                s
            },
            DecodeHexError::ParseIntError(e) => {
                let mut s = text("ParseIntError(");
                let d = debug_parse_int_error(e);
                s.append(d.as_str());
                s.append(")");
                s
            },
        }
    }
}

/// Everything that ends a connection or fails a backend operation.
#[derive(Debug)]
pub enum Error {
    ReadVersionError,
    WrongVersion(u32),
    UnknownFileTypeByte(u8),
    UnknownFileTypeExt(String),
    UnknownTransactionCommand(u8),
    UnknownPushCommand(u8),
    UnknownCommand(u8),
    FileTooLarge { max_size: usize, size: usize },
    NotInTransaction,
    Utf8Error(std::str::Utf8Error),
    ParseIntError(std::num::ParseIntError),
    IoError(std::io::Error),
    DecodeHexError(DecodeHexError),
    HandlerError(String),
    UnknownError,
}

impl Error {
    /// The message that describes the error.
    pub fn message(&self) -> (r: String)
        ensures
            self matches Error::ReadVersionError ==> r@ == "read version error"@,
            self matches Error::WrongVersion(v) ==> r@ == "wrong version: "@ + decimal(v as nat),
            self matches Error::UnknownFileTypeByte(b) ==> r@ == "unknown file type byte: "@
                + decimal(b as nat),
            self matches Error::UnknownFileTypeExt(e) ==> r@ == "unknown file type ext: "@
                + str_debug_of(e@),
            self matches Error::UnknownTransactionCommand(b) ==> r@
                == "unknown transaction command: "@ + decimal(b as nat),
            self matches Error::UnknownPushCommand(b) ==> r@ == "unknown push command: "@
                + decimal(b as nat),
            self matches Error::UnknownCommand(b) ==> r@ == "unknown command: "@ + decimal(
                b as nat,
            ),
            self matches Error::FileTooLarge { max_size, size } ==> r@ == "file too large: "@
                + decimal(size as nat) + ". max size: "@ + decimal(max_size as nat) + ". size"@,
            self matches Error::NotInTransaction ==> r@ == "not in transaction"@,
            self matches Error::HandlerError(e) ==> r@ == "handler error: "@ + str_debug_of(e@),
            self matches Error::UnknownError ==> r@ == "unknown error"@,
    {
        match self {
            Error::ReadVersionError => text("read version error"),
            Error::WrongVersion(v) => {
                let mut s = text("wrong version: ");
                push_decimal(&mut s, *v as u64);
                s
            },
            Error::UnknownFileTypeByte(b) => {
                let mut s = text("unknown file type byte: ");
                push_decimal(&mut s, *b as u64);
                s
            },
            Error::UnknownFileTypeExt(e) => {
                let mut s = text("unknown file type ext: ");
                let d = debug_str(e.as_str());
                s.append(d.as_str());
                s
            },
            Error::UnknownTransactionCommand(b) => {
                let mut s = text("unknown transaction command: ");
                push_decimal(&mut s, *b as u64);
                s
            },
            Error::UnknownPushCommand(b) => {
                let mut s = text("unknown push command: ");
                push_decimal(&mut s, *b as u64);
                s
            },
            Error::UnknownCommand(b) => {
                let mut s = text("unknown command: ");
                push_decimal(&mut s, *b as u64);
                s
            },
            Error::FileTooLarge { max_size, size } => {
                let mut s = text("file too large: ");
                push_decimal(&mut s, *size as u64);
                s.append(". max size: ");
                push_decimal(&mut s, *max_size as u64);
                s.append(". size");
                s
            },
            Error::NotInTransaction => text("not in transaction"),
            Error::Utf8Error(e) => {
                let mut s = text("utf8 error: ");
                let d = debug_utf8_error(e);
                s.append(d.as_str());
                s
            },
            Error::ParseIntError(e) => {
                let mut s = text("parse int error: ");
                let d = debug_parse_int_error(e);
                s.append(d.as_str());
                s
            },
            Error::IoError(e) => {
                let mut s = text("io error: ");
                let d = debug_io_error(e);
                s.append(d.as_str());
                s
            },
            Error::DecodeHexError(e) => {
                let mut s = text("decode hex error: ");
                let d = e.debug_text();
                s.append(d.as_str());
                s
            },
            Error::HandlerError(e) => {
                let mut s = text("handler error: ");
                let d = debug_str(e.as_str());
                s.append(d.as_str());
                s
            },
            Error::UnknownError => text("unknown error"),
        }
    }
}

} // verus!
