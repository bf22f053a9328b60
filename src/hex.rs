//! Fixed-width binary identifiers and their hex text.

use vstd::prelude::*;

use vstd::utf8::encode_utf8;

use crate::error::DecodeHexError;

verus! {

/// The lowercase hex digit of a value below 16.
pub open spec fn hex_char(d: u8) -> char {
    if d < 10 {
        (('0' as u8) + d) as char
    } else {
        (('a' as u8) + (d - 10)) as char
    }
}

/// The two lowercase hex digits of a byte, high nibble first.
pub open spec fn byte_hex(b: u8) -> Seq<char> {
    seq![hex_char(b / 16), hex_char(b % 16)]
}

/// The lowercase hex text of a byte sequence.
pub open spec fn hex_encode(b: Seq<u8>) -> Seq<char>
    decreases b.len(),
{
    if b.len() == 0 {
        Seq::empty()
    } else {
        hex_encode(b.drop_last()) + byte_hex(b.last())
    }
}

/// The value of one hex digit, in either case.
pub open spec fn hex_digit_value(c: char) -> Option<u8> {
    if '0' <= c && c <= '9' {
        Some((c as u8 - '0' as u8) as u8)
    } else if 'a' <= c && c <= 'f' {
        Some((c as u8 - 'a' as u8 + 10) as u8)
    } else if 'A' <= c && c <= 'F' {
        Some((c as u8 - 'A' as u8 + 10) as u8)
    } else {
        None
    }
}

/// The value of a run of hex digits, most significant first.
pub open spec fn hex_digits_value(s: Seq<char>) -> int
    decreases s.len(),
{
    if s.len() == 0 {
        0
    } else {
        hex_digits_value(s.drop_last()) * 16 + hex_digit_value(s.last())->Some_0 as int
    }
}

/// The digits of a number text: the text without its leading `+`, if any.
pub open spec fn number_digits(s: Seq<char>) -> Seq<char> {
    if s.len() > 0 && s[0] == '+' {
        s.drop_first()
    } else {
        s
    }
}

/// The number that a text denotes in base 16: an optional `+` and then one
/// or more hex digits, of any value.
pub open spec fn hex_number(s: Seq<char>) -> Option<int> {
    let digits = number_digits(s);
    if digits.len() > 0 && forall|i: int|
        0 <= i < digits.len() ==> (#[trigger] hex_digit_value(digits[i])) is Some {
        Some(hex_digits_value(digits))
    } else {
        None
    }
}

/// Whether `s` denotes in base 16 a number that fits below `bound`.
pub open spec fn hex_number_below(s: Seq<char>, bound: int) -> bool {
    hex_number(s) is Some && hex_number(s)->Some_0 < bound
}

/// The byte that a two-character text denotes in base 16.
pub open spec fn hex_pair_value(s: Seq<char>) -> Option<u8> {
    if s.len() == 2 && hex_number_below(s, 256) {
        Some(hex_number(s)->Some_0 as u8)
    } else {
        None
    }
}

/// The two characters of `s` that encode byte `i`.
pub open spec fn hex_pair(s: Seq<char>, i: int) -> Seq<char> {
    s.subrange(2 * i, 2 * i + 2)
}

/// Whether every pair of characters of `s` denotes a byte.
pub open spec fn hex_decodable(s: Seq<char>) -> bool {
    s.len() % 2 == 0 && forall|i: int|
        0 <= i < s.len() / 2 ==> (#[trigger] hex_pair_value(hex_pair(s, i))) is Some
}

/// The bytes that a decodable hex text denotes.
pub open spec fn hex_decode(s: Seq<char>) -> Seq<u8> {
    Seq::new((s.len() / 2) as nat, |i: int| hex_pair_value(hex_pair(s, i))->Some_0)
}

/// The four bytes of `n`, most significant first.
pub open spec fn be_bytes(n: u32) -> Seq<u8> {
    seq![
        ((n >> 24u32) & 0xffu32) as u8,
        ((n >> 16u32) & 0xffu32) as u8,
        ((n >> 8u32) & 0xffu32) as u8,
        (n & 0xffu32) as u8,
    ]
}

pub proof fn lemma_hex_encode_len(b: Seq<u8>)
    ensures
        hex_encode(b).len() == 2 * b.len(),
    decreases b.len(),
{
    if b.len() > 0 {
        lemma_hex_encode_len(b.drop_last());
    }
}

proof fn lemma_byte_hex_injective(a: u8, b: u8)
    requires
        byte_hex(a) == byte_hex(b),
    ensures
        a == b,
{
    assert(byte_hex(a)[0] == byte_hex(b)[0]);
    assert(byte_hex(a)[1] == byte_hex(b)[1]);
    assert(a / 16 == b / 16);
    assert(a % 16 == b % 16);
}

/// Equal hex texts of byte sequences of one length come from equal bytes.
pub proof fn lemma_hex_encode_injective(a: Seq<u8>, b: Seq<u8>)
    requires
        a.len() == b.len(),
        hex_encode(a) == hex_encode(b),
    ensures
        a == b,
    decreases a.len(),
{
    if a.len() > 0 {
        lemma_hex_encode_len(a.drop_last());
        lemma_hex_encode_len(b.drop_last());
        let n = 2 * (a.len() - 1);
        assert(hex_encode(a).subrange(0, n) =~= hex_encode(a.drop_last()));
        assert(hex_encode(b).subrange(0, n) =~= hex_encode(b.drop_last()));
        assert(hex_encode(a).subrange(n, n + 2) =~= byte_hex(a.last()));
        assert(hex_encode(b).subrange(n, n + 2) =~= byte_hex(b.last()));
        lemma_hex_encode_injective(a.drop_last(), b.drop_last());
        lemma_byte_hex_injective(a.last(), b.last());
        assert(a =~= a.drop_last().push(a.last()));
        assert(b =~= b.drop_last().push(b.last()));
    }
}

/// Relies on `u8::from_str_radix` in base 16: an optional `+` and hex
/// digits of a value that fits, else an error.
#[verifier::external_body]
fn parse_hex_byte(s: &str) -> (r: Result<u8, std::num::ParseIntError>)
    ensures
        r is Ok <==> hex_number_below(s@, 256),
        r matches Ok(v) ==> v == hex_number(s@)->Some_0,
{
    u8::from_str_radix(s, 16)
}

/// A text with a character that is not ASCII denotes no number.
proof fn lemma_non_ascii_not_number(s: Seq<char>, j: int)
    requires
        0 <= j < s.len(),
        !('\0' <= s[j] <= '\u{7f}'),
    ensures
        hex_number(s) is None,
{
    let digits = number_digits(s);
    let k = if s[0] == '+' {
        j - 1
    } else {
        j
    };
    assert(0 <= k < digits.len());
    assert(digits[k] == s[j]);
    assert(hex_digit_value(digits[k]) is None);
    assert(!(forall|i: int|
        0 <= i < digits.len() ==> (#[trigger] hex_digit_value(digits[i])) is Some));
}

/// A text with a character that is not ASCII is not a decodable hex text.
proof fn lemma_non_ascii_not_decodable(s: Seq<char>, j: int)
    requires
        0 <= j < s.len(),
        !('\0' <= s[j] <= '\u{7f}'),
    ensures
        !hex_decodable(s),
{
    if s.len() % 2 == 0 {
        let i = j / 2;
        let p = hex_pair(s, i);
        lemma_non_ascii_not_number(p, j - 2 * i);
        assert(hex_pair_value(p) is None);
    }
}

fn hex_digit_str(d: u8) -> (r: &'static str)
    requires
        d < 16,
    ensures
        r@ == seq![hex_char(d)],
{
    proof {
        reveal_strlit("0");
        reveal_strlit("1");
        reveal_strlit("2");
        reveal_strlit("3");
        reveal_strlit("4");
        reveal_strlit("5");
        reveal_strlit("6");
        reveal_strlit("7");
        reveal_strlit("8");
        reveal_strlit("9");
        reveal_strlit("a");
        reveal_strlit("b");
        reveal_strlit("c");
        reveal_strlit("d");
        reveal_strlit("e");
        reveal_strlit("f");
    }
    let r = match d {
        0 => "0",
        1 => "1",
        2 => "2",
        3 => "3",
        4 => "4",
        5 => "5",
        6 => "6",
        7 => "7",
        8 => "8",
        9 => "9",
        10 => "a",
        11 => "b",
        12 => "c",
        13 => "d",
        14 => "e",
        _ => "f",
    };
    assert(r@ =~= seq![hex_char(d)]);
    r
}

/// The lowercase hex text of `bytes`, two digits per byte.
pub fn encode_hex(bytes: &[u8]) -> (r: String)
    ensures
        r@ == hex_encode(bytes@),
        r@.len() == 2 * bytes@.len(),
{
    let mut s = String::new();
    let mut i: usize = 0;
    while i < bytes.len()
        invariant
            i <= bytes@.len(),
            s@ == hex_encode(bytes@.subrange(0, i as int)),
        decreases bytes@.len() - i,
    {
        let b = bytes[i];
        s.append(hex_digit_str(b / 16));
        s.append(hex_digit_str(b % 16));
        proof {
            let p = bytes@.subrange(0, i + 1);
            assert(p.drop_last() =~= bytes@.subrange(0, i as int));
            assert(s@ =~= hex_encode(p));
        }
        i = i + 1;
    }
    assert(bytes@.subrange(0, bytes@.len() as int) =~= bytes@);
    proof {
        lemma_hex_encode_len(bytes@);
    }
    s
}

/// Decodes the hex text `s` into `result`, whose length must be half the
/// byte length of `s`. On a length mismatch `result` is left untouched.
pub fn decode_hex(s: &str, result: &mut [u8]) -> (r: Result<(), DecodeHexError>)
    ensures
        final(result)@.len() == old(result)@.len(),
        (r matches Err(DecodeHexError::LengthNotMatched { .. })) <==> s.len() != 2 * old(
            result,
        )@.len(),
        r is Ok <==> s.len() == 2 * old(result)@.len() && hex_decodable(s@),
        (r matches Err(DecodeHexError::ParseIntError(_))) <==> s.len() == 2 * old(result)@.len()
            && !hex_decodable(s@),
        match r {
            Ok(()) => {
                &&& s@.len() == 2 * old(result)@.len()
                &&& final(result)@ == hex_decode(s@)
            },
            Err(DecodeHexError::LengthNotMatched { string_len, buf_len }) => {
                &&& string_len == s.len()
                &&& buf_len == old(result)@.len()
                &&& final(result)@ == old(result)@
            },
            Err(DecodeHexError::ParseIntError(_)) => true,
        },
{
    let n = result.len();
    let byte_len = s.len();
    if byte_len % 2 != 0 || byte_len / 2 != n {
        return Err(DecodeHexError::LengthNotMatched { string_len: byte_len, buf_len: n });
    }
    let char_len = s.unicode_len();
    if !s.is_ascii() {
        proof {
            let j = choose|j: int| 0 <= j < s@.len() && !('\0' <= #[trigger] s@[j] <= '\u{7f}');
            lemma_non_ascii_not_decodable(s@, j);
            lemma_non_ascii_not_number(s@, j);
        }
        // A text with a non-ASCII character is no number, so this parse fails.
        return match parse_hex_byte(s) {
            Ok(_) => Err(DecodeHexError::LengthNotMatched { string_len: byte_len, buf_len: n }),
            Err(e) => Err(DecodeHexError::ParseIntError(e)),
        };
    }
    proof {
        vstd::string::is_ascii_spec_bytes(s);
    }
    assert(s@.len() == 2 * n);
    let mut i: usize = 0;
    while i < n
        invariant
            n == result@.len(),
            n == old(result)@.len(),
            s@.len() == 2 * n,
            char_len == s@.len(),
            vstd::string::is_ascii(s),
            i <= n,
            forall|j: int| 0 <= j < i ==> (#[trigger] hex_pair_value(hex_pair(s@, j))) is Some,
            forall|j: int|
                0 <= j < i ==> #[trigger] result@[j] == hex_pair_value(hex_pair(s@, j))->Some_0,
        decreases n - i,
    {
        let pair = s.substring_ascii(2 * i, 2 * i + 2);
        match parse_hex_byte(pair) {
            Ok(b) => {
                result[i] = b;
            },
            Err(e) => {
                assert(!hex_decodable(s@)) by {
                    assert(hex_pair_value(hex_pair(s@, i as int)) is None);
                }
                return Err(DecodeHexError::ParseIntError(e));
            },
        }
        i = i + 1;
    }
    assert(result@ =~= hex_decode(s@));
    Ok(())
}

/// The eight lowercase hex digits of `n`, most significant first.
pub fn u32_to_be_hex_string(n: u32) -> (r: String)
    ensures
        r@ == hex_encode(be_bytes(n)),
        r@.len() == 8,
{
    let arr: [u8; 4] = [
        ((n >> 24) & 0xff) as u8,
        ((n >> 16) & 0xff) as u8,
        ((n >> 8) & 0xff) as u8,
        (n & 0xff) as u8,
    ];
    assert(arr@ =~= be_bytes(n));
    encode_hex(arr.as_slice())
}

/// A fixed-width binary identifier; its hex text is derived.
#[derive(Debug, Copy, Clone, Eq, PartialEq, Hash)]
pub struct HexString<const N: usize>(pub [u8; N]);

impl<const N: usize> View for HexString<N> {
    type V = Seq<u8>;

    open spec fn view(&self) -> Seq<u8> {
        self.0@
    }
}

impl<const N: usize> HexString<N> {
    /// The all-zero identifier.
    pub fn new() -> (r: Self)
        ensures
            r@ == Seq::new(N as nat, |i: int| 0u8),
    {
        let r = HexString([0u8; N]);
        assert(r@ =~= Seq::new(N as nat, |i: int| 0u8));
        r
    }

    /// The identifier written by a hex text of exactly `2 * N` bytes.
    pub fn from_hex_string(s: String) -> (r: Result<Self, DecodeHexError>)
        ensures
            (r matches Err(DecodeHexError::LengthNotMatched { .. })) <==> encode_utf8(s@).len() as usize != 2
                * N,
            r is Ok <==> encode_utf8(s@).len() as usize == 2 * N && hex_decodable(s@),
            match r {
                Ok(h) => s@.len() == 2 * N && h@ == hex_decode(s@),
                Err(DecodeHexError::LengthNotMatched { string_len, buf_len }) => buf_len == N
                    && string_len == encode_utf8(s@).len() as usize,
                Err(DecodeHexError::ParseIntError(_)) => !hex_decodable(s@),
            },
    {
        let mut result = Self::new();
        match decode_hex(s.as_str(), &mut result.0) {
            Ok(()) => Ok(result),
            Err(e) => Err(e),
        }
    }

    /// Whether two identifiers hold the same bytes.
    pub fn equals(&self, other: &Self) -> (r: bool)
        ensures
            r == (self@ == other@),
    {
        let mut i: usize = 0;
        while i < N
            invariant
                i <= N,
                self@.len() == N,
                other@.len() == N,
                forall|j: int| 0 <= j < i ==> self@[j] == other@[j],
            decreases N - i,
        {
            if self.0[i] != other.0[i] {
                return false;
            }
            i = i + 1;
        }
        assert(self@ =~= other@);
        true
    }

    /// The lowercase hex text of the identifier.
    pub fn to_hex_string(&self) -> (r: String)
        ensures
            r@ == hex_encode(self@),
            r@.len() == 2 * N,
    {
        encode_hex(self.0.as_slice())
    }
}

pub const GUID_LENGTH: usize = 16;

pub const HASH_LENGTH: usize = 16;

/// The identity of an artifact family.
pub type UnityFileGuid = HexString<16>;

/// The client-supplied content hash of one version of an artifact family.
pub type UnityFileHash = HexString<16>;

proof fn lemma_hex_char_value(d: u8)
    requires
        d < 16,
    ensures
        hex_digit_value(hex_char(d)) == Some(d),
        hex_char(d) != '+',
        '\0' <= hex_char(d) <= '\u{7f}',
{
}

proof fn lemma_byte_hex_value(x: u8)
    ensures
        hex_pair_value(byte_hex(x)) == Some(x),
        vstd::utf8::is_ascii_chars(byte_hex(x)),
{
    let s = byte_hex(x);
    lemma_hex_char_value(x / 16);
    lemma_hex_char_value(x % 16);
    assert(number_digits(s) == s);
    reveal_with_fuel(hex_digits_value, 3);
    assert(s.drop_last().drop_last() =~= Seq::<char>::empty());
    assert(s.drop_last() =~= seq![hex_char(x / 16)]);
    assert(hex_digits_value(s) == (x / 16) as int * 16 + (x % 16) as int);
}

proof fn lemma_hex_encode_pairs(b: Seq<u8>)
    ensures
        hex_encode(b).len() == 2 * b.len(),
        forall|i: int| 0 <= i < b.len() ==> #[trigger] hex_pair(hex_encode(b), i) == byte_hex(b[i]),
        vstd::utf8::is_ascii_chars(hex_encode(b)),
    decreases b.len(),
{
    lemma_hex_encode_len(b);
    if b.len() > 0 {
        let p = b.drop_last();
        lemma_hex_encode_pairs(p);
        lemma_byte_hex_value(b.last());
        let e = hex_encode(b);
        assert forall|i: int| 0 <= i < b.len() implies #[trigger] hex_pair(e, i) == byte_hex(b[i]) by {
            if i < p.len() {
                assert(hex_pair(e, i) =~= hex_pair(hex_encode(p), i));
            } else {
                assert(hex_pair(e, i) =~= byte_hex(b.last()));
            }
        }
        assert forall|j: int| 0 <= j < e.len() implies '\0' <= #[trigger] e[j] <= '\u{7f}' by {
            if j < hex_encode(p).len() {
                assert(e[j] == hex_encode(p)[j]);
            } else {
                assert(e[j] == byte_hex(b.last())[j - hex_encode(p).len()]);
            }
        }
    }
}

/// Decoding the hex text of bytes gives those bytes back, and that text
/// takes one byte per character.
pub proof fn law_hex_round_trip(b: Seq<u8>)
    ensures
        hex_decodable(hex_encode(b)),
        hex_decode(hex_encode(b)) == b,
        encode_utf8(hex_encode(b)).len() == 2 * b.len(),
{
    lemma_hex_encode_pairs(b);
    let e = hex_encode(b);
    assert forall|i: int| 0 <= i < e.len() / 2 implies (#[trigger] hex_pair_value(hex_pair(e, i)))
        is Some by {
        lemma_byte_hex_value(b[i]);
    }
    assert forall|i: int| 0 <= i < b.len() implies #[trigger] hex_decode(e)[i] == b[i] by {
        lemma_byte_hex_value(b[i]);
    }
    assert(hex_decode(e) =~= b);
    vstd::utf8::is_ascii_chars_encode_utf8(e);
}

} // verus!
