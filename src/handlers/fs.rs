//! The filesystem backend: committed artifacts are files at content
//! addressed paths under a base directory, sharded by the first two hex
//! characters of their name; uploads are staged in uniquely named temporary
//! files and renamed into place on commit.
//!
//! The backend is generic over the handle `F` of a staged temporary file;
//! the caller performs the file operations that the backend decides on.

use vstd::prelude::*;

use crate::error::Error;
use crate::file_type::UnityFileType;
use crate::handlers::staging::{check_put, stage, too_large};
use crate::handlers::transaction::{staged, Transaction};
use crate::hex::{
    byte_hex, hex_encode, lemma_hex_encode_injective, lemma_hex_encode_len, UnityFileGuid,
    UnityFileHash,
};

verus! {

/// `part` placed under the directory `dir`: a separator is added unless
/// `dir` is empty or already ends with one.
pub open spec fn join_path(dir: Seq<char>, part: Seq<char>) -> Seq<char> {
    if dir.len() == 0 {
        part
    } else if dir.last() == '/' {
        dir + part
    } else {
        dir + seq!['/'] + part
    }
}

/// The file name of an artifact: `<identity hex>-<hash hex>.<ext>`.
pub open spec fn file_name(t: UnityFileType, guid: Seq<u8>, hash: Seq<u8>) -> Seq<char> {
    hex_encode(guid) + seq!['-'] + hex_encode(hash) + seq!['.'] + t.ext()
}

/// The final path of an artifact under `base`: its file name inside the
/// shard directory named by the first two characters of that name.
pub open spec fn file_path(base: Seq<char>, t: UnityFileType, guid: Seq<u8>, hash: Seq<u8>) -> Seq<
    char,
> {
    let name = file_name(t, guid, hash);
    join_path(join_path(base, name.subrange(0, 2)), name)
}

/// Relies on `getrandom::fill`: sixteen bytes from the system's random
/// source, or nothing when that source fails.
#[verifier::external_body]
fn random_bytes() -> (r: Option<[u8; 16]>)
{
    let mut b = [0u8; 16];
    match getrandom::fill(&mut b) {
        Ok(()) => Some(b),
        Err(_) => None,
    }
}

/// Relies on `uuid::Builder::from_random_bytes` and the text of a `Uuid`,
/// its hyphenated form of 36 characters.
#[verifier::external_body]
fn uuid_text(b: [u8; 16]) -> (r: String)
    ensures
        r@.len() == 36,
{
    uuid::Builder::from_random_bytes(b).into_uuid().to_string()
}

/// `part` placed under the directory `dir`.
pub fn join(dir: &str, part: &str) -> (r: String)
    ensures
        r@ == join_path(dir@, part@),
{
    let n = dir.unicode_len();
    let mut r = String::from_str(dir);
    if n == 0 {
        return String::from_str(part);
    }
    if dir.get_char(n - 1) != '/' {
        proof {
            reveal_strlit("/");
        }
        r.append("/");
        assert("/"@ =~= seq!['/']);
    }
    r.append(part);
    r
}

/// A connection's handle on the filesystem backend.
pub struct FileSystemHandler<F> {
    /// Largest accepted upload in bytes; zero for no limit.
    pub max_file_size: usize,
    pub transaction: Option<Transaction<F>>,
    pub base_path: String,
    pub temp_path: String,
}

impl<F> FileSystemHandler<F> {
    pub open spec fn wf(&self) -> bool {
        match self.transaction {
            Some(tr) => tr.wf(),
            None => true,
        }
    }

    pub fn new(base_path: String, temp_path: String) -> (r: Self)
        ensures
            r.wf(),
            r.max_file_size == 0,
            r.transaction is None,
            r.base_path@ == base_path@,
            r.temp_path@ == temp_path@,
    {
        FileSystemHandler { max_file_size: 0, transaction: None, base_path, temp_path }
    }

    pub fn max_file_size(&self) -> (r: usize)
        ensures
            r == self.max_file_size,
    {
        self.max_file_size
    }

    pub fn set_max_file_size(&mut self, max_file_size: usize)
        ensures
            final(self).max_file_size == max_file_size,
            final(self).transaction == old(self).transaction,
            final(self).base_path == old(self).base_path,
            final(self).temp_path == old(self).temp_path,
    {
        self.max_file_size = max_file_size;
    }

    /// The file name of an artifact.
    pub fn calc_filename(t: UnityFileType, guid: &UnityFileGuid, hash: &UnityFileHash) -> (r:
        String)
        ensures
            r@ == file_name(t, guid@, hash@),
    {
        proof {
            reveal_strlit("-");
            reveal_strlit(".");
        }
        let mut r = guid.to_hex_string();
        r.append("-");
        let h = hash.to_hex_string();
        r.append(h.as_str());
        r.append(".");
        r.append(t.to_ext());
        assert(r@ =~= file_name(t, guid@, hash@));
        r
    }

    /// The final path of an artifact under the base directory.
    pub fn calc_filepath(&self, t: UnityFileType, guid: &UnityFileGuid, hash: &UnityFileHash) -> (r:
        String)
        ensures
            r@ == file_path(self.base_path@, t, guid@, hash@),
    {
        let filename = Self::calc_filename(t, guid, hash);
        proof {
            lemma_hex_encode_len(guid@);
        }
        let hash_dir = filename.as_str().substring_char(0, 2);
        let dir = join(self.base_path.as_str(), hash_dir);
        join(dir.as_str(), filename.as_str())
    }

    /// The outcome of a lookup whose final path could be opened: a regular
    /// file is a hit of its length, anything else at that path an error.
    pub fn opened_entry(path: &str, is_file: bool, len: u64) -> (r: Result<u64, Error>)
        ensures
            is_file ==> r == Ok::<u64, Error>(len),
            !is_file ==> (r matches Err(Error::HandlerError(m)) && m@ == "Path "@ + path@
                + " is not a file"@),
    {
        if is_file {
            Ok(len)
        } else {
            let mut m = String::from_str("Path ");
            m.append(path);
            m.append(" is not a file");
            Err(Error::HandlerError(m))
        }
    }

    /// A fresh path in the temporary directory for staging one upload: a
    /// random 36-character token under that directory, or `None` when the
    /// system's random source fails.
    pub fn new_tmp_file_path(&self) -> (r: Option<String>)
        ensures
            r matches Some(p) ==> exists|token: Seq<char>|
                token.len() == 36 && p@ == join_path(self.temp_path@, token),
    {
        match random_bytes() {
            Some(b) => {
                let token = uuid_text(b);
                Some(join(self.temp_path.as_str(), token.as_str()))
            },
            None => None,
        }
    }

    /// The outcome of a lookup whose final path could not be opened: a path
    /// that does not exist is a miss, any other failure is that I/O error.
    pub fn open_failed(e: std::io::Error, not_found: bool) -> (r: Result<Option<u64>, Error>)
        ensures
            not_found ==> r == Ok::<Option<u64>, Error>(None),
            !not_found ==> (r matches Err(Error::IoError(x)) && x == e),
    {
        if not_found {
            Ok(None)
        } else {
            Err(Error::IoError(e))
        }
    }

    /// Decides, before a temporary file is made or any byte of an upload
    /// is read, whether it may begin: a transaction must be open, then the
    /// declared size must be within a non-zero maximum. `put` makes the same
    /// checks.
    pub fn check_put(&self, size: u64) -> (r: Result<(), Error>)
        ensures
            self.transaction is None ==> (r matches Err(Error::NotInTransaction)),
            self.transaction is Some && too_large(self.max_file_size, size) ==> match r {
                Err(Error::FileTooLarge { max_size, size: s }) => max_size == self.max_file_size
                    && s == size as usize,
                _ => false,
            },
            r is Ok <==> self.transaction is Some && !too_large(self.max_file_size, size),
    {
        check_put(&self.transaction, self.max_file_size, size)
    }

    /// Opens a new transaction. The staged files of the one that was open are
    /// dropped, and with them their temporary files.
    pub fn start_transaction(&mut self, guid: UnityFileGuid, hash: UnityFileHash) -> (r: Result<
        (),
        Error,
    >)
        ensures
            r is Ok,
            final(self).wf(),
            final(self).max_file_size == old(self).max_file_size,
            final(self).base_path == old(self).base_path,
            final(self).temp_path == old(self).temp_path,
            match final(self).transaction {
                Some(tr) => tr.guid == guid && tr.hash == hash && tr.files.is_empty(),
                None => false,
            },
    {
        self.transaction = Some(Transaction::new(guid, hash));
        Ok(())
    }

    /// Discards the open transaction and its staged files.
    pub fn cancel_transaction(&mut self) -> (r: Result<(), Error>)
        ensures
            r is Ok,
            final(self).wf(),
            final(self).transaction is None,
            final(self).max_file_size == old(self).max_file_size,
            final(self).base_path == old(self).base_path,
            final(self).temp_path == old(self).temp_path,
    {
        self.transaction = None;
        Ok(())
    }

    /// Stages `file`, into which `written` bytes of an upload of declared
    /// `size` were copied, for kind `t`; the file it replaces is dropped.
    /// Fails with `NotInTransaction` when no transaction is open, then with
    /// `FileTooLarge` above a non-zero maximum, then with an I/O error when
    /// fewer than `size` bytes arrived; on failure the transaction is
    /// unchanged.
    pub fn put(&mut self, t: UnityFileType, size: u64, file: F, written: u64) -> (r: Result<
        (),
        Error,
    >)
        requires
            old(self).wf(),
        ensures
            final(self).wf(),
            final(self).max_file_size == old(self).max_file_size,
            final(self).base_path == old(self).base_path,
            final(self).temp_path == old(self).temp_path,
            old(self).transaction is None ==> (r matches Err(Error::NotInTransaction)),
            old(self).transaction is Some && too_large(old(self).max_file_size, size) ==> match r {
                Err(Error::FileTooLarge { max_size, size: s }) => max_size == old(
                    self,
                ).max_file_size && s == size as usize,
                _ => false,
            },
            old(self).transaction is Some && !too_large(old(self).max_file_size, size) && written
                != size ==> (r matches Err(Error::IoError(_))),
            r is Ok <==> (old(self).transaction is Some && !too_large(old(self).max_file_size, size)
                && written == size),
            r is Err ==> final(self).transaction == old(self).transaction,
            r is Ok ==> match (old(self).transaction, final(self).transaction) {
                (Some(a), Some(b)) => {
                    &&& b.guid == a.guid
                    &&& b.hash == a.hash
                    &&& b.files.slot(t) == Some(file)
                    &&& forall|u: UnityFileType|
                        u != t ==> #[trigger] b.files.slot(u) == a.files.slot(u)
                },
                _ => false,
            },
    {
        let max = self.max_file_size;
        stage(&mut self.transaction, max, t, size, file, written)
    }

    /// Closes the open transaction and returns, in kind order, each staged
    /// file with the final path that it is to be renamed to. Nothing is
    /// returned when no transaction is open.
    pub fn end_transaction(&mut self) -> (r: Result<Vec<(F, String)>, Error>)
        requires
            old(self).wf(),
        ensures
            final(self).wf(),
            final(self).transaction is None,
            final(self).max_file_size == old(self).max_file_size,
            final(self).base_path == old(self).base_path,
            final(self).temp_path == old(self).temp_path,
            match r {
                Ok(moves) => match old(self).transaction {
                    None => moves@.len() == 0,
                    Some(tr) => {
                        let s = staged(tr.files.0@);
                        &&& moves@.len() == s.len()
                        &&& forall|i: int|
                            0 <= i < s.len() ==> {
                                &&& (#[trigger] moves@[i]).0 == s[i].1
                                &&& moves@[i].1@ == file_path(
                                    old(self).base_path@,
                                    s[i].0,
                                    tr.guid@,
                                    tr.hash@,
                                )
                            }
                    },
                },
                Err(_) => false,
            },
    {
        let transaction = self.transaction.take();
        let mut moves: Vec<(F, String)> = Vec::new();
        match transaction {
            Some(mut tr) => {
                let mut files = tr.files.take_all();
                let ghost all = files@;
                let ghost mut k: int = 0;
                while files.len() > 0
                    invariant
                        0 <= k <= all.len(),
                        files@ == all.subrange(k, all.len() as int),
                        moves@.len() == k,
                        forall|i: int|
                            0 <= i < k ==> {
                                &&& (#[trigger] moves@[i]).0 == all[i].1
                                &&& moves@[i].1@ == file_path(
                                    self.base_path@,
                                    all[i].0,
                                    tr.guid@,
                                    tr.hash@,
                                )
                            },
                    decreases files@.len(),
                {
                    let (t, file) = files.remove(0);
                    proof {
                        assert(all[k] == (t, file));
                    }
                    let target = self.calc_filepath(t, &tr.guid, &tr.hash);
                    moves.push((file, target));
                    proof {
                        k = k + 1;
                        assert(files@ =~= all.subrange(k, all.len() as int));
                    }
                }
            },
            None => {},
        }
        Ok(moves)
    }
}

/// The path an artifact is stored at depends on the base directory, its
/// kind, identity and content hash alone, so a handler on the same base
/// directory, in this process or a later one, looks it up where it was
/// committed.
pub proof fn law_path_reproducible<F, G>(
    a: FileSystemHandler<F>,
    b: FileSystemHandler<G>,
    t: UnityFileType,
    guid: Seq<u8>,
    hash: Seq<u8>,
)
    requires
        a.base_path@ == b.base_path@,
    ensures
        file_path(a.base_path@, t, guid, hash) == file_path(b.base_path@, t, guid, hash),
{
}

proof fn lemma_hex_encode_no_slash(b: Seq<u8>)
    ensures
        forall|i: int| 0 <= i < hex_encode(b).len() ==> #[trigger] hex_encode(b)[i] != '/',
    decreases b.len(),
{
    if b.len() > 0 {
        lemma_hex_encode_no_slash(b.drop_last());
        let d = byte_hex(b.last());
        assert(d[0] != '/' && d[1] != '/');
        let p = hex_encode(b.drop_last());
        assert forall|i: int| 0 <= i < hex_encode(b).len() implies #[trigger] hex_encode(b)[i]
            != '/' by {
            if i < p.len() {
                assert(hex_encode(b)[i] == p[i]);
            } else {
                assert(hex_encode(b)[i] == d[i - p.len()]);
            }
        }
    }
}

/// Distinct artifacts never share a path: under one base directory the
/// path of an artifact determines its kind, identity and content hash.
pub proof fn law_path_injective(
    base: Seq<char>,
    t1: UnityFileType,
    guid1: Seq<u8>,
    hash1: Seq<u8>,
    t2: UnityFileType,
    guid2: Seq<u8>,
    hash2: Seq<u8>,
)
    requires
        guid1.len() == 16,
        hash1.len() == 16,
        guid2.len() == 16,
        hash2.len() == 16,
        file_path(base, t1, guid1, hash1) == file_path(base, t2, guid2, hash2),
    ensures
        t1 == t2,
        guid1 == guid2,
        hash1 == hash2,
{
    lemma_hex_encode_len(guid1);
    lemma_hex_encode_len(hash1);
    lemma_hex_encode_len(guid2);
    lemma_hex_encode_len(hash2);
    lemma_hex_encode_no_slash(guid1);
    lemma_hex_encode_no_slash(guid2);
    let n1 = file_name(t1, guid1, hash1);
    let n2 = file_name(t2, guid2, hash2);
    assert(n1[1] == hex_encode(guid1)[1]);
    assert(n2[1] == hex_encode(guid2)[1]);
    let d1 = join_path(base, n1.subrange(0, 2));
    let d2 = join_path(base, n2.subrange(0, 2));
    assert(d1.len() == d2.len());
    assert(d1.last() == n1[1]);
    assert(d2.last() == n2[1]);
    let p1 = file_path(base, t1, guid1, hash1);
    let p2 = file_path(base, t2, guid2, hash2);
    assert(p1 == d1 + seq!['/'] + n1);
    assert(p2 == d2 + seq!['/'] + n2);
    assert(n1 =~= p1.subrange(d1.len() + 1int, p1.len() as int));
    assert(n2 =~= p2.subrange(d2.len() + 1int, p2.len() as int));
    assert(hex_encode(guid1) =~= n1.subrange(0, 32));
    assert(hex_encode(guid2) =~= n2.subrange(0, 32));
    lemma_hex_encode_injective(guid1, guid2);
    assert(hex_encode(hash1) =~= n1.subrange(33, 65));
    assert(hex_encode(hash2) =~= n2.subrange(33, 65));
    lemma_hex_encode_injective(hash1, hash2);
    assert(t1.ext() =~= n1.subrange(66, n1.len() as int));
    assert(t2.ext() =~= n2.subrange(66, n2.len() as int));
    assert(t1.ext() == t2.ext());
    assert(t1.ext().len() == t2.ext().len());
    if t1 != t2 {
        assert(t1.ext()[0] != t2.ext()[0] || t1.ext().len() != t2.ext().len());
    }
}

} // verus!
