//! The closed set of artifact kinds and their tags.

use vstd::prelude::*;

use crate::text::str_eq;

verus! {

/// The kind of an artifact stored under one identity and content hash.
#[derive(Debug, Copy, Clone, PartialEq, Eq, Hash, Structural)]
pub enum UnityFileType {
    Asset,
    Info,
    Resource,
}

impl UnityFileType {
    pub const LENGTH: usize = 3;

    /// The slot index and byte tag of a kind.
    pub open spec fn index(self) -> nat {
        match self {
            UnityFileType::Asset => 0,
            UnityFileType::Info => 1,
            UnityFileType::Resource => 2,
        }
    }

    /// The kind whose byte tag is `b`, if any.
    pub open spec fn from_index(b: int) -> Option<UnityFileType> {
        if b == 0 {
            Some(UnityFileType::Asset)
        } else if b == 1 {
            Some(UnityFileType::Info)
        } else if b == 2 {
            Some(UnityFileType::Resource)
        } else {
            None
        }
    }

    /// The file name extension of a kind.
    pub open spec fn ext(self) -> Seq<char> {
        match self {
            UnityFileType::Asset => seq!['b', 'i', 'n'],
            UnityFileType::Info => seq!['i', 'n', 'f', 'o'],
            UnityFileType::Resource => seq!['r', 'e', 's', 'o', 'u', 'r', 'c', 'e'],
        }
    }

    /// The protocol character of a kind.
    pub open spec fn ext_char(self) -> u8 {
        match self {
            UnityFileType::Asset => 0x61u8,
            UnityFileType::Info => 0x69u8,
            UnityFileType::Resource => 0x72u8,
        }
    }

    /// The kind whose protocol character is `b`, if any.
    pub open spec fn from_ext_char(b: u8) -> Option<UnityFileType> {
        if b == 0x61u8 {
            Some(UnityFileType::Asset)
        } else if b == 0x69u8 {
            Some(UnityFileType::Info)
        } else if b == 0x72u8 {
            Some(UnityFileType::Resource)
        } else {
            None
        }
    }

    pub fn to_u8(&self) -> (r: u8)
        ensures
            r as nat == self.index(),
    {
        match self {
            UnityFileType::Asset => 0,
            UnityFileType::Info => 1,
            UnityFileType::Resource => 2,
        }
    }

    pub fn try_from_u8(b: u8) -> (r: Result<UnityFileType, ()>)
        ensures
            match UnityFileType::from_index(b as int) {
                Some(t) => r == Ok::<UnityFileType, ()>(t),
                None => r is Err,
            },
    {
        match b {
            0 => Ok(UnityFileType::Asset),
            1 => Ok(UnityFileType::Info),
            2 => Ok(UnityFileType::Resource),
            _ => Err(()),
        }
    }

    pub fn to_ext(&self) -> (r: &'static str)
        ensures
            r@ == self.ext(),
    {
        proof {
            reveal_strlit("bin");
            reveal_strlit("info");
            reveal_strlit("resource");
        }
        match self {
            UnityFileType::Asset => "bin",
            UnityFileType::Info => "info",
            UnityFileType::Resource => "resource",
        }
    }

    pub fn try_from_ext(s: &str) -> (r: Result<UnityFileType, ()>)
        ensures
            s@ == UnityFileType::Asset.ext() ==> r == Ok::<UnityFileType, ()>(UnityFileType::Asset),
            s@ == UnityFileType::Info.ext() ==> r == Ok::<UnityFileType, ()>(UnityFileType::Info),
            s@ == UnityFileType::Resource.ext() ==> r == Ok::<UnityFileType, ()>(
                UnityFileType::Resource,
            ),
            r is Err <==> (s@ != UnityFileType::Asset.ext() && s@ != UnityFileType::Info.ext()
                && s@ != UnityFileType::Resource.ext()),
    {
        proof {
            reveal_strlit("bin");
            reveal_strlit("info");
            reveal_strlit("resource");
        }
        if str_eq(s, "bin") {
            assert(s@ =~= UnityFileType::Asset.ext());
            Ok(UnityFileType::Asset)
        } else if str_eq(s, "info") {
            assert(s@ =~= UnityFileType::Info.ext());
            Ok(UnityFileType::Info)
        } else if str_eq(s, "resource") {
            assert(s@ =~= UnityFileType::Resource.ext());
            Ok(UnityFileType::Resource)
        } else {
            assert(s@ != UnityFileType::Asset.ext()) by {
                assert("bin"@ =~= UnityFileType::Asset.ext());
            }
            assert(s@ != UnityFileType::Info.ext()) by {
                assert("info"@ =~= UnityFileType::Info.ext());
            }
            assert(s@ != UnityFileType::Resource.ext()) by {
                assert("resource"@ =~= UnityFileType::Resource.ext());
            }
            Err(())
        }
    }

    pub fn to_ext_char(&self) -> (r: u8)
        ensures
            r == self.ext_char(),
    {
        match self {
            UnityFileType::Asset => 0x61u8,
            UnityFileType::Info => 0x69u8,
            UnityFileType::Resource => 0x72u8,
        }
    }

    pub fn try_from_ext_char(b: u8) -> (r: Result<UnityFileType, ()>)
        ensures
            match UnityFileType::from_ext_char(b) {
                Some(t) => r == Ok::<UnityFileType, ()>(t),
                None => r is Err,
            },
    {
        match b {
            0x61u8 => Ok(UnityFileType::Asset),
            0x69u8 => Ok(UnityFileType::Info),
            0x72u8 => Ok(UnityFileType::Resource),
            _ => Err(()),
        }
    }
}

/// Each kind's byte tag and protocol character lead back to that kind.
pub proof fn lemma_tags_round_trip(t: UnityFileType)
    ensures
        UnityFileType::from_index(t.index() as int) == Some(t),
        UnityFileType::from_ext_char(t.ext_char()) == Some(t),
{
}

} // verus!
