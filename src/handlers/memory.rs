//! The in-memory backend: committed artifacts live in a key to bytes store
//! that all connections share; each handler keeps its own transaction.

use vstd::prelude::*;

use bytes::Bytes;

use crate::error::Error;
use crate::file_type::UnityFileType;
use crate::handlers::staging::{check_put, stage, too_large};
use crate::handlers::transaction::{kind_of_slot, staged, Transaction};
use crate::hex::{UnityFileGuid, UnityFileHash};

verus! {

/// `bytes::Bytes`, the shared immutable buffer a stored artifact is kept in.
#[verifier::external_type_specification]
#[verifier::external_body]
pub struct ExBytes(bytes::Bytes);

/// What a `Bytes` buffer holds.
pub uninterp spec fn bytes_content(b: Bytes) -> Seq<u8>;

/// Relies on `Bytes::from(Vec<u8>)`: the buffer holds the vector's bytes.
#[verifier::external_body]
fn bytes_from_vec(v: Vec<u8>) -> (r: Bytes)
    ensures
        bytes_content(r) == v@,
{
    Bytes::from(v)
}

/// Relies on `Bytes::len`: the number of bytes held.
#[verifier::external_body]
fn bytes_len(b: &Bytes) -> (r: usize)
    ensures
        r == bytes_content(*b).len(),
{
    b.len()
}

/// Relies on `Bytes::clone`: a second handle on the same bytes.
#[verifier::external_body]
fn bytes_clone(b: &Bytes) -> (r: Bytes)
    ensures
        bytes_content(r) == bytes_content(*b),
{
    b.clone()
}

/// A cache key as plain values: identity, content hash and kind.
pub type KeyView = (Seq<u8>, Seq<u8>, UnityFileType);

/// The address of one stored artifact.
#[derive(Debug, Clone, Copy, Eq, PartialEq, Hash)]
pub struct CacheKey {
    pub guid: UnityFileGuid,
    pub hash: UnityFileHash,
    pub kind: UnityFileType,
}

impl View for CacheKey {
    type V = KeyView;

    open spec fn view(&self) -> KeyView {
        (self.guid@, self.hash@, self.kind)
    }
}

impl CacheKey {
    pub fn new(guid: UnityFileGuid, hash: UnityFileHash, typ: UnityFileType) -> (r: Self)
        ensures
            r@ == (guid@, hash@, typ),
    {
        CacheKey { guid, hash, kind: typ }
    }

    /// Whether two keys address the same artifact.
    pub fn same(&self, other: &CacheKey) -> (r: bool)
        ensures
            r == (self@ == other@),
    {
        self.kind == other.kind && self.guid.equals(&other.guid) && self.hash.equals(&other.hash)
    }
}

/// What `entries` stores under `k`: the latest entry for it.
pub open spec fn lookup(entries: Seq<(CacheKey, Bytes)>, k: KeyView) -> Option<Seq<u8>>
    decreases entries.len(),
{
    if entries.len() == 0 {
        None
    } else if entries.last().0@ == k {
        Some(bytes_content(entries.last().1))
    } else {
        lookup(entries.drop_last(), k)
    }
}

proof fn lemma_lookup_remove(entries: Seq<(CacheKey, Bytes)>, i: int, k: KeyView)
    requires
        0 <= i < entries.len(),
        entries[i].0@ != k,
    ensures
        lookup(entries.remove(i), k) == lookup(entries, k),
    decreases entries.len(),
{
    if i < entries.len() - 1 {
        let r = entries.remove(i);
        assert(r.last() == entries.last());
        assert(r.drop_last() =~= entries.drop_last().remove(i));
        if entries.last().0@ != k {
            lemma_lookup_remove(entries.drop_last(), i, k);
        }
    } else {
        assert(entries.remove(i) =~= entries.drop_last());
    }
}

/// The keys of `entries`, in order.
pub open spec fn entry_keys(entries: Seq<(CacheKey, Bytes)>) -> Seq<KeyView> {
    entries.map_values(|e: (CacheKey, Bytes)| e.0@)
}

proof fn lemma_lookup_some(entries: Seq<(CacheKey, Bytes)>, k: KeyView)
    ensures
        (lookup(entries, k) is Some) <==> entry_keys(entries).contains(k),
    decreases entries.len(),
{
    if entries.len() > 0 {
        let n = entries.len() - 1;
        lemma_lookup_some(entries.drop_last(), k);
        assert(entry_keys(entries.drop_last()) =~= entry_keys(entries).drop_last());
        if entries.last().0@ == k {
            assert(entry_keys(entries)[n] == k);
        } else if entry_keys(entries).contains(k) {
            let i = choose|i: int| 0 <= i < entry_keys(entries).len() && entry_keys(entries)[i] == k;
            assert(i != n);
            assert(entry_keys(entries.drop_last())[i] == k);
        }
    }
}

/// The committed artifacts, shared by all connections of a server.
pub struct MemoryDatabase {
    pub entries: Vec<(CacheKey, Bytes)>,
}

impl View for MemoryDatabase {
    type V = Map<KeyView, Seq<u8>>;

    open spec fn view(&self) -> Map<KeyView, Seq<u8>> {
        Map::new(
            |k: KeyView| lookup(self.entries@, k) is Some,
            |k: KeyView| lookup(self.entries@, k)->Some_0,
        )
    }
}

impl MemoryDatabase {
    /// No key is stored twice.
    pub open spec fn wf(&self) -> bool {
        entry_keys(self.entries@).no_duplicates()
    }

    proof fn lemma_view_finite(&self)
        requires
            self.wf(),
        ensures
            self@.dom() == entry_keys(self.entries@).to_set(),
            self@.len() == self.entries@.len(),
    {
        let keys = entry_keys(self.entries@);
        assert forall|k: KeyView| #[trigger] self@.dom().contains(k) <==> keys.to_set().contains(k) by {
            lemma_lookup_some(self.entries@, k);
        }
        assert(self@.dom() =~= keys.to_set());
        keys.unique_seq_to_set();
    }

    pub fn new() -> (r: Self)
        ensures
            r.wf(),
            r@ == Map::<KeyView, Seq<u8>>::empty(),
    {
        let r = MemoryDatabase { entries: Vec::new() };
        assert(r@ =~= Map::<KeyView, Seq<u8>>::empty());
        r
    }

    fn find(&self, key: &CacheKey) -> (r: Option<usize>)
        ensures
            match r {
                Some(i) => i < self.entries@.len() && self.entries@[i as int].0@ == key@
                    && lookup(self.entries@, key@) == Some(
                    bytes_content(self.entries@[i as int].1),
                ),
                None => lookup(self.entries@, key@) is None,
            },
    {
        let mut i: usize = self.entries.len();
        assert(self.entries@.subrange(0, i as int) =~= self.entries@);
        while i > 0
            invariant
                i <= self.entries@.len(),
                lookup(self.entries@, key@) == lookup(self.entries@.subrange(0, i as int), key@),
            decreases i,
        {
            let j = i - 1;
            if self.entries[j].0.same(key) {
                return Some(j);
            }
            assert(self.entries@.subrange(0, j as int) =~= self.entries@.subrange(
                0,
                i as int,
            ).drop_last());
            i = j;
        }
        None
    }

    /// The bytes stored under `key`, if any.
    pub fn get(&self, key: &CacheKey) -> (r: Option<Bytes>)
        ensures
            match r {
                Some(b) => self@.contains_key(key@) && bytes_content(b) == self@[key@],
                None => !self@.contains_key(key@),
            },
    {
        match self.find(key) {
            Some(i) => Some(bytes_clone(&self.entries[i].1)),
            None => None,
        }
    }

    /// Stores `value` under `key`, replacing what was stored there.
    pub fn insert(&mut self, key: CacheKey, value: Bytes)
        requires
            old(self).wf(),
        ensures
            final(self).wf(),
            final(self)@ == old(self)@.insert(key@, bytes_content(value)),
    {
        match self.find(&key) {
            Some(i) => {
                let ghost before = self.entries@;
                self.entries.remove(i);
                proof {
                    let kb = entry_keys(before);
                    assert(entry_keys(self.entries@) =~= kb.remove(i as int));
                    assert forall|a: int, b: int|
                        0 <= a < kb.len() - 1 && 0 <= b < kb.len() - 1 && a != b implies
                        kb.remove(i as int)[a] != kb.remove(i as int)[b] by {
                        let a2 = if a < i { a } else { a + 1 };
                        let b2 = if b < i { b } else { b + 1 };
                        assert(kb.remove(i as int)[a] == kb[a2]);
                        assert(kb.remove(i as int)[b] == kb[b2]);
                    }
                    assert(kb[i as int] == key@);
                    assert(!entry_keys(self.entries@).contains(key@)) by {
                        if entry_keys(self.entries@).contains(key@) {
                            let j = choose|j: int|
                                0 <= j < kb.len() - 1 && kb.remove(i as int)[j] == key@;
                            let j2 = if j < i { j } else { j + 1 };
                            assert(kb[j2] == key@);
                        }
                    }
                    assert forall|k: KeyView| k != key@ implies lookup(self.entries@, k) == lookup(
                        before,
                        k,
                    ) by {
                        lemma_lookup_remove(before, i as int, k);
                    }
                }
            },
            None => {
                proof {
                    lemma_lookup_some(self.entries@, key@);
                }
            },
        }
        let ghost mid = self.entries@;
        assert(!entry_keys(mid).contains(key@));
        self.entries.push((key, value));
        proof {
            assert(self.entries@.drop_last() =~= mid);
            assert(entry_keys(self.entries@) =~= entry_keys(mid).push(key@));
        }
        assert(self@ =~= old(self)@.insert(key@, bytes_content(value)));
    }

    /// The number of stored artifacts.
    pub fn len(&self) -> (r: usize)
        requires
            self.wf(),
        ensures
            r == self@.len(),
    {
        proof {
            self.lemma_view_finite();
        }
        self.entries.len()
    }
}

/// An open transaction as plain values: its identity, content hash, and the
/// bytes staged for each kind that has some.
pub struct PendingView {
    pub guid: Seq<u8>,
    pub hash: Seq<u8>,
    pub staged: Map<UnityFileType, Seq<u8>>,
}

/// A transaction just started: nothing staged.
pub open spec fn fresh_pending(guid: Seq<u8>, hash: Seq<u8>) -> PendingView {
    PendingView { guid, hash, staged: Map::empty() }
}

/// `p` with `data` staged for `t`, replacing what was staged for it.
pub open spec fn stage_pending(p: PendingView, t: UnityFileType, data: Seq<u8>) -> PendingView {
    PendingView { staged: p.staged.insert(t, data), ..p }
}

/// The store after committing `p`: each staged kind is stored under the
/// transaction's identity and content hash, replacing what was there.
pub open spec fn commit(db: Map<KeyView, Seq<u8>>, p: Option<PendingView>) -> Map<
    KeyView,
    Seq<u8>,
> {
    match p {
        None => db,
        Some(p) => db.union_prefer_right(
            Map::new(
                |k: KeyView| k.0 == p.guid && k.1 == p.hash && p.staged.contains_key(k.2),
                |k: KeyView| p.staged[k.2],
            ),
        ),
    }
}

/// The staging area of a transaction as a map from kind to bytes.
pub open spec fn staged_map(tr: Transaction<Vec<u8>>) -> Map<UnityFileType, Seq<u8>> {
    Map::new(|t: UnityFileType| tr.files.slot(t) is Some, |t: UnityFileType| tr.files.slot(t)->Some_0@)
}

/// The store after inserting each of `s` under identity `g` and hash `h`, in
/// order.
pub open spec fn apply_staged(
    db: Map<KeyView, Seq<u8>>,
    g: Seq<u8>,
    h: Seq<u8>,
    s: Seq<(UnityFileType, Vec<u8>)>,
) -> Map<KeyView, Seq<u8>>
    decreases s.len(),
{
    if s.len() == 0 {
        db
    } else {
        apply_staged(db, g, h, s.drop_last()).insert((g, h, s.last().0), s.last().1@)
    }
}

/// The store after committing the occupied slots below `m`.
pub open spec fn committed_prefix(
    db: Map<KeyView, Seq<u8>>,
    g: Seq<u8>,
    h: Seq<u8>,
    slots: Seq<Option<Vec<u8>>>,
    m: int,
) -> Map<KeyView, Seq<u8>> {
    db.union_prefer_right(
        Map::new(
            |k: KeyView| k.0 == g && k.1 == h && k.2.index() < m && slots[k.2.index() as int] is Some,
            |k: KeyView| slots[k.2.index() as int]->Some_0@,
        ),
    )
}

proof fn lemma_apply_staged(
    db: Map<KeyView, Seq<u8>>,
    g: Seq<u8>,
    h: Seq<u8>,
    slots: Seq<Option<Vec<u8>>>,
    m: int,
)
    requires
        slots.len() == 3,
        0 <= m <= 3,
    ensures
        apply_staged(db, g, h, staged(slots.subrange(0, m))) == committed_prefix(db, g, h, slots, m),
    decreases m,
{
    let s = slots.subrange(0, m);
    if m == 0 {
        assert(committed_prefix(db, g, h, slots, m) =~= db);
    } else {
        lemma_apply_staged(db, g, h, slots, m - 1);
        assert(s.drop_last() =~= slots.subrange(0, m - 1));
        let kind = kind_of_slot(m - 1);
        assert(kind.index() == m - 1);
        assert forall|u: UnityFileType| u.index() == m - 1 implies u == kind by {}
        assert(s.last() == slots[m - 1]);
        let prev = apply_staged(db, g, h, staged(slots.subrange(0, m - 1)));
        match slots[m - 1] {
            Some(v) => {
                assert(staged(s) == staged(s.drop_last()).push((kind, v)));
                assert(staged(s).drop_last() =~= staged(s.drop_last()));
                assert(apply_staged(db, g, h, staged(s)) == prev.insert((g, h, kind), v@));
            },
            None => {
                assert(staged(s) == staged(s.drop_last()));
            },
        }
        assert(apply_staged(db, g, h, staged(s)) =~= committed_prefix(db, g, h, slots, m));
    }
}

/// Staging `payload` for kind `t` and then committing stores exactly
/// `payload` under the transaction's identity, content hash and `t`,
/// whatever else was staged or stored before.
pub proof fn law_put_commit_get(
    db: Map<KeyView, Seq<u8>>,
    p: PendingView,
    t: UnityFileType,
    payload: Seq<u8>,
)
    ensures
        commit(db, Some(stage_pending(p, t, payload))).contains_key((p.guid, p.hash, t)),
        commit(db, Some(stage_pending(p, t, payload)))[(p.guid, p.hash, t)] == payload,
{
}

/// A commit changes only the keys of the kinds that were staged: every other
/// key, including each kind left unset, keeps what it held, and one that
/// was missing stays missing.
pub proof fn law_commit_only_staged(db: Map<KeyView, Seq<u8>>, p: PendingView, k: KeyView)
    requires
        !(k.0 == p.guid && k.1 == p.hash && p.staged.contains_key(k.2)),
    ensures
        commit(db, Some(p)).contains_key(k) == db.contains_key(k),
        db.contains_key(k) ==> commit(db, Some(p))[k] == db[k],
{
}

/// What was staged and then discarded, by a cancel or by starting another
/// transaction, is never stored: committing afterwards leaves the store as
/// it was.
pub proof fn law_discarded_staging_not_committed(
    db: Map<KeyView, Seq<u8>>,
    guid: Seq<u8>,
    hash: Seq<u8>,
)
    ensures
        commit(db, None) == db,
        commit(db, Some(fresh_pending(guid, hash))) == db,
{
    assert(commit(db, Some(fresh_pending(guid, hash))) =~= db);
}

/// A connection's handle on the in-memory backend.
pub struct MemoryHandler {
    /// Largest accepted upload in bytes; zero for no limit.
    pub max_file_size: usize,
    pub transaction: Option<Transaction<Vec<u8>>>,
}

impl MemoryHandler {
    pub open spec fn wf(&self) -> bool {
        match self.transaction {
            Some(tr) => tr.wf(),
            None => true,
        }
    }

    /// The open transaction, if any, as plain values.
    pub open spec fn pending(&self) -> Option<PendingView> {
        match self.transaction {
            Some(tr) => Some(PendingView { guid: tr.guid@, hash: tr.hash@, staged: staged_map(tr) }),
            None => None,
        }
    }

    pub fn new() -> (r: Self)
        ensures
            r.wf(),
            r.max_file_size == 0,
            r.pending() is None,
    {
        MemoryHandler { max_file_size: 0, transaction: None }
    }

    pub fn max_file_size(&self) -> (r: usize)
        ensures
            r == self.max_file_size,
    {
        self.max_file_size
    }

    pub fn set_max_file_size(&mut self, max_file_size: usize)
        requires
            old(self).wf(),
        ensures
            final(self).wf(),
            final(self).max_file_size == max_file_size,
            final(self).pending() == old(self).pending(),
    {
        self.max_file_size = max_file_size;
    }

    /// Decides, before any byte of an upload is read, whether it may
    /// begin: a transaction must be open, then the declared size must be
    /// within a non-zero maximum. `put` makes the same checks.
    pub fn check_put(&self, size: u64) -> (r: Result<(), Error>)
        ensures
            self.pending() is None ==> (r matches Err(Error::NotInTransaction)),
            self.pending() is Some && too_large(self.max_file_size, size) ==> match r {
                Err(Error::FileTooLarge { max_size, size: s }) => max_size == self.max_file_size
                    && s == size as usize,
                _ => false,
            },
            r is Ok <==> self.pending() is Some && !too_large(self.max_file_size, size),
    {
        check_put(&self.transaction, self.max_file_size, size)
    }

    /// The number of artifacts in the shared store.
    pub fn file_count(&self, database: &MemoryDatabase) -> (r: usize)
        requires
            database.wf(),
        ensures
            r == database@.len(),
    {
        database.len()
    }

    /// Looks an artifact up; a miss is `Ok(None)`, never an error.
    pub fn get(
        &self,
        database: &MemoryDatabase,
        t: UnityFileType,
        guid: &UnityFileGuid,
        hash: &UnityFileHash,
    ) -> (r: Result<Option<(u64, Bytes)>, Error>)
        ensures
            match r {
                Ok(Some((size, b))) => {
                    &&& database@.contains_key((guid@, hash@, t))
                    &&& bytes_content(b) == database@[(guid@, hash@, t)]
                    &&& size == bytes_content(b).len()
                },
                Ok(None) => !database@.contains_key((guid@, hash@, t)),
                Err(_) => false,
            },
    {
        let key = CacheKey::new(*guid, *hash, t);
        match database.get(&key) {
            None => Ok(None),
            Some(b) => {
                let n = bytes_len(&b);
                Ok(Some((n as u64, b)))
            },
        }
    }

    /// Opens a new transaction, discarding the one that was open.
    pub fn start_transaction(&mut self, guid: UnityFileGuid, hash: UnityFileHash) -> (r: Result<
        (),
        Error,
    >)
        requires
            old(self).wf(),
        ensures
            r is Ok,
            final(self).wf(),
            final(self).max_file_size == old(self).max_file_size,
            final(self).pending() == Some(fresh_pending(guid@, hash@)),
    {
        self.transaction = Some(Transaction::new(guid, hash));
        assert(staged_map(self.transaction->Some_0) =~= Map::empty());
        Ok(())
    }

    /// Commits the open transaction into the store; nothing happens when
    /// none is open.
    pub fn end_transaction(&mut self, database: &mut MemoryDatabase) -> (r: Result<(), Error>)
        requires
            old(self).wf(),
            old(database).wf(),
        ensures
            final(database).wf(),
            r is Ok,
            final(self).wf(),
            final(self).max_file_size == old(self).max_file_size,
            final(self).pending() is None,
            final(database)@ == commit(old(database)@, old(self).pending()),
    {
        let transaction = self.transaction.take();
        match transaction {
            Some(mut tr) => {
                let ghost slots = tr.files.0@;
                let mut files = tr.files.take_all();
                let ghost all = files@;
                let ghost mut k: int = 0;
                while files.len() > 0
                    invariant
                        0 <= k <= all.len(),
                        files@ == all.subrange(k, all.len() as int),
                        database.wf(),
                        database@ == apply_staged(
                            old(database)@,
                            tr.guid@,
                            tr.hash@,
                            all.subrange(0, k),
                        ),
                    decreases files@.len(),
                {
                    let (t, bytes) = files.remove(0);
                    proof {
                        assert(all.subrange(0, k + 1).drop_last() =~= all.subrange(0, k));
                        assert(all[k] == (t, bytes));
                    }
                    database.insert(CacheKey::new(tr.guid, tr.hash, t), bytes_from_vec(bytes));
                    proof {
                        k = k + 1;
                        assert(files@ =~= all.subrange(k, all.len() as int));
                    }
                }
                proof {
                    assert(all.subrange(0, k) =~= all);
                    assert(slots.subrange(0, 3) =~= slots);
                    lemma_apply_staged(old(database)@, tr.guid@, tr.hash@, slots, 3);
                    assert(commit(old(database)@, old(self).pending()) =~= committed_prefix(
                        old(database)@,
                        tr.guid@,
                        tr.hash@,
                        slots,
                        3,
                    ));
                }
            },
            None => {},
        }
        Ok(())
    }

    /// Discards the open transaction; nothing happens when none is open.
    pub fn cancel_transaction(&mut self) -> (r: Result<(), Error>)
        requires
            old(self).wf(),
        ensures
            r is Ok,
            final(self).wf(),
            final(self).max_file_size == old(self).max_file_size,
            final(self).pending() is None,
    {
        self.transaction = None;
        Ok(())
    }

    /// Stages `data`, the bytes read for an upload of declared `size`, for
    /// kind `t`. Fails with `NotInTransaction` when no transaction is open,
    /// then with `FileTooLarge` above a non-zero maximum, then with an I/O
    /// error when fewer than `size` bytes arrived; on failure nothing
    /// changes.
    pub fn put(&mut self, t: UnityFileType, size: u64, data: Vec<u8>) -> (r: Result<(), Error>)
        requires
            old(self).wf(),
        ensures
            final(self).wf(),
            final(self).max_file_size == old(self).max_file_size,
            old(self).pending() is None ==> (r matches Err(Error::NotInTransaction)),
            old(self).pending() is Some && too_large(old(self).max_file_size, size) ==> match r {
                Err(Error::FileTooLarge { max_size, size: s }) => max_size == old(
                    self,
                ).max_file_size && s == size as usize,
                _ => false,
            },
            old(self).pending() is Some && !too_large(old(self).max_file_size, size) && data@.len()
                != size ==> (r matches Err(Error::IoError(_))),
            r is Ok <==> (old(self).pending() is Some && !too_large(old(self).max_file_size, size)
                && data@.len() == size),
            r is Err ==> final(self).pending() == old(self).pending(),
            r is Ok ==> final(self).pending() == Some(
                stage_pending(old(self).pending()->Some_0, t, data@),
            ),
    {
        let ghost d = data@;
        let received = data.len() as u64;
        let r = stage(&mut self.transaction, self.max_file_size, t, size, data, received);
        proof {
            if r is Ok {
                assert(staged_map(self.transaction->Some_0) =~= staged_map(
                    old(self).transaction->Some_0,
                ).insert(t, d));
            }
        }
        r
    }
}

} // verus!
