//! A content cache for build artifacts, keyed by identity, content hash and
//! artifact kind, with the wire protocol that serves it and the storage
//! backends behind it.

pub mod error;
pub mod file_type;
pub mod handlers;
pub mod hex;
pub mod protocol;
pub mod text;

pub use error::{DecodeHexError, Error};
pub use file_type::UnityFileType;
pub use hex::{
    decode_hex, encode_hex, u32_to_be_hex_string, HexString, UnityFileGuid, UnityFileHash,
    GUID_LENGTH, HASH_LENGTH,
};
