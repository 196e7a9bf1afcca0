//! The replicated entry log: an unstable in-memory tail over a durable,
//! append-only stable prefix.
//!
//! Indexes are contiguous from one. `try_commit` appends a batch, truncating
//! the unstable tail at the first conflicting index; `stabilize_to` moves an
//! unstable prefix into stable storage. The well-formedness invariant says
//! the stable prefix holds exactly the indexes `1..=stable_index` and the
//! unstable tail continues them without a gap, so the union of the two
//! always covers `1..=last_index` with no gap and no duplicate.

use vstd::prelude::*;

verus! {

/// Entry payloads live in reference-counted buffers of the `bytes` crate.
#[verifier::external_type_specification]
#[verifier::external_body]
pub struct ExBytes(bytes::Bytes);

/// What a `bytes::Bytes` buffer holds.
pub uninterp spec fn bytes_view(b: bytes::Bytes) -> Seq<u8>;

/// Relies on `From<Vec<u8>> for Bytes`: the buffer takes the vector's
/// contents.
#[verifier::external_body]
pub fn bytes_from_vec(v: Vec<u8>) -> (r: bytes::Bytes)
    ensures
        bytes_view(r) == v@,
{
    bytes::Bytes::from(v)
}

/// Relies on `Clone for Bytes`: a shallow copy holding the same bytes.
#[verifier::external_body]
pub fn bytes_clone(b: &bytes::Bytes) -> (r: bytes::Bytes)
    ensures
        bytes_view(r) == bytes_view(*b),
{
    b.clone()
}

/// A durable log record: a position, the term it was proposed in, and an
/// opaque payload.
#[derive(Debug)]
pub struct Entry {
    pub index: u64,
    pub term: u64,
    pub data: bytes::Bytes,
}

/// The mathematical shape of an entry.
pub ghost struct EntryV {
    pub index: u64,
    pub term: u64,
    pub data: Seq<u8>,
}

impl View for Entry {
    type V = EntryV;

    open spec fn view(&self) -> EntryV {
        EntryV { index: self.index, term: self.term, data: bytes_view(self.data) }
    }
}

impl Entry {
    /// Builds an entry around an owned payload.
    pub fn new(index: u64, term: u64, data: Vec<u8>) -> (r: Entry)
        ensures
            r@ == (EntryV { index, term, data: data@ }),
    {
        Entry { index, term, data: bytes_from_vec(data) }
    }

    /// Copies an entry, payload included.
    pub fn duplicate(&self) -> (r: Entry)
        ensures
            r@ == self@,
    {
        Entry { index: self.index, term: self.term, data: bytes_clone(&self.data) }
    }
}

pub open spec fn entries_view(s: Seq<Entry>) -> Seq<EntryV> {
    s.map_values(|e: Entry| e@)
}

/// A batch handed to `try_commit`: ascending, contiguous indexes.
pub open spec fn batch_wf(s: Seq<EntryV>) -> bool {
    forall|k: int| 0 <= k < s.len() ==> (#[trigger] s[k]).index == s[0].index + k
}

/// Why a commit was refused.
#[derive(Clone, Copy, Debug, PartialEq, Eq, Structural)]
pub enum CommitErr {
    CannotRevertStableIndex,
    /// The batch does not start at the next required index.
    IndexTooHigh,
}

/// Durable storage for the stable prefix. Entries arrive in ascending index
/// order and are appended; the whole record — index, term and payload — is
/// retained, so terms survive restarts.
pub trait Storage: Sized {
    /// The stable prefix, in index order.
    spec fn stable_seq(&self) -> Seq<EntryV>;

    /// The highest durable index.
    fn stable_index(&self) -> (r: u64)
        ensures
            r as nat == self.stable_seq().len(),
    ;

    /// Appends entries; the caller hands them in ascending order continuing
    /// the prefix.
    fn commit_stable_entries(&mut self, entries: Vec<Entry>)
        requires
            old(self).stable_seq().len() + entries@.len() <= u64::MAX,
        ensures
            final(self).stable_seq() == old(self).stable_seq() + entries_view(entries@),
    ;

    /// Fetches one durable entry by index.
    fn retrieve_stable_entry(&self, index: u64) -> (r: Option<Entry>)
        ensures
            1 <= index <= self.stable_seq().len() ==> (r matches Some(e) && e@
                == self.stable_seq()[index - 1]),
            !(1 <= index <= self.stable_seq().len()) ==> r is None,
    ;
}

/// An in-memory stable store, for tests and single-process use.
pub struct MemStorage {
    pub entries: Vec<Entry>,
}

impl MemStorage {
    pub fn new() -> (r: MemStorage)
        ensures
            r.stable_seq() == Seq::<EntryV>::empty(),
    {
        let r = MemStorage { entries: Vec::new() };
        proof {
            assert(r.stable_seq() =~= Seq::<EntryV>::empty());
        }
        r
    }

    /// The stored entries, in order.
    pub fn stable_entries(&self) -> (r: &Vec<Entry>)
        ensures
            entries_view(r@) == self.stable_seq(),
    {
        &self.entries
    }
}

impl Storage for MemStorage {
    open spec fn stable_seq(&self) -> Seq<EntryV> {
        entries_view(self.entries@)
    }

    fn stable_index(&self) -> (r: u64)
        ensures
            r as nat == self.stable_seq().len(),
    {
        self.entries.len() as u64
    }

    fn commit_stable_entries(&mut self, entries: Vec<Entry>)
        ensures
            final(self).stable_seq() == old(self).stable_seq() + entries_view(entries@),
    {
        let ghost incoming = entries_view(entries@);
        let mut moved = entries;
        self.entries.append(&mut moved);
        proof {
            assert(self.stable_seq() =~= old(self).stable_seq() + incoming);
        }
    }

    fn retrieve_stable_entry(&self, index: u64) -> (r: Option<Entry>)
        ensures
            1 <= index <= self.stable_seq().len() ==> (r matches Some(e) && e@
                == self.stable_seq()[index - 1]),
            !(1 <= index <= self.stable_seq().len()) ==> r is None,
    {
        if index >= 1 && index <= self.entries.len() as u64 {
            let pos: usize = (index as usize) - 1;
            proof {
                assert(self.stable_seq()[pos as int] == self.entries@[pos as int]@);
            }
            Some(self.entries[pos].duplicate())
        } else {
            None
        }
    }
}

/// The replicated log: a stable prefix in storage, an unstable tail in
/// memory, and the term of the last appended entry.
pub struct Log<S: Storage> {
    unstable_ents: Vec<Entry>,
    storage: S,
    last_term: u64,
}

impl<S: Storage> Log<S> {
    /// The stable prefix.
    pub closed spec fn stable(&self) -> Seq<EntryV> {
        self.storage.stable_seq()
    }

    /// The unstable tail.
    pub closed spec fn unstable(&self) -> Seq<EntryV> {
        entries_view(self.unstable_ents@)
    }

    /// Every entry, stable first.
    pub closed spec fn all(&self) -> Seq<EntryV> {
        self.stable() + self.unstable()
    }

    /// The index of the newest entry, stable or not.
    pub closed spec fn last_index_spec(&self) -> nat {
        self.stable().len() + self.unstable().len()
    }

    pub closed spec fn last_term_spec(&self) -> u64 {
        self.last_term
    }

    /// The log invariant: the stable prefix holds exactly the indexes
    /// `1..=stable_index`, and the unstable tail continues them without a
    /// gap.
    pub closed spec fn wf(&self) -> bool {
        &&& self.stable().len() + self.unstable().len() <= u64::MAX
        &&& forall|k: int| 0 <= k < self.stable().len() ==> (#[trigger] self.stable()[k]).index
            == k + 1
        &&& forall|k: int| 0 <= k < self.unstable().len() ==> (#[trigger] self.unstable()[k]).index
            == self.stable().len() + k + 1
    }

    /// What the invariant gives a caller: the union is the two parts in
    /// order, the last index is their combined length, and each part is
    /// contiguous — the stable prefix from one, the unstable tail from the
    /// next free index.
    pub proof fn lemma_state_shape(&self)
        requires
            self.wf(),
        ensures
            self.all() == self.stable() + self.unstable(),
            self.last_index_spec() == self.stable().len() + self.unstable().len(),
            self.stable().len() + self.unstable().len() <= u64::MAX,
            forall|k: int| 0 <= k < self.stable().len() ==> (#[trigger] self.stable()[k]).index
                == k + 1,
            forall|k: int| 0 <= k < self.unstable().len() ==> (#[trigger] self.unstable()[
                k
            ]).index == self.stable().len() + k + 1,
    {
    }

    /// Whatever the index range, the union of stable and unstable covers
    /// exactly `1..=last_index`, with no gap and no duplicate.
    pub proof fn lemma_coverage(&self)
        requires
            self.wf(),
        ensures
            self.all().len() == self.last_index_spec(),
            forall|k: int| 0 <= k < self.all().len() ==> (#[trigger] self.all()[k]).index == k + 1,
    {
        assert forall|k: int| 0 <= k < self.all().len() implies (#[trigger] self.all()[k]).index
            == k + 1 by {
            if k < self.stable().len() {
                assert(self.all()[k] == self.stable()[k]);
            } else {
                assert(self.all()[k] == self.unstable()[k - self.stable().len()]);
            }
        }
    }

    /// Wraps storage whose contents are a well-formed prefix.
    pub fn new(storage: S) -> (r: Log<S>)
        requires
            storage.stable_seq().len() <= u64::MAX,
            forall|k: int| 0 <= k < storage.stable_seq().len() ==> (#[trigger] storage.stable_seq()[
                k
            ]).index == k + 1,
        ensures
            r.wf(),
            r.stable() == storage.stable_seq(),
            r.unstable() == Seq::<EntryV>::empty(),
            r.last_term_spec() == 0,
    {
        let r = Log { unstable_ents: Vec::new(), storage, last_term: 0 };
        proof {
            assert(r.unstable() =~= Seq::<EntryV>::empty());
        }
        r
    }

    /// The term of the newest appended entry.
    pub fn last_term(&self) -> (r: u64)
        ensures
            r == self.last_term_spec(),
    {
        self.last_term
    }

    /// The index of the newest entry: the last unstable one, or the stable
    /// head when the tail is empty.
    pub fn last_index(&self) -> (r: u64)
        requires
            self.wf(),
        ensures
            r as nat == self.last_index_spec(),
    {
        if self.unstable_ents.len() > 0 {
            let pos = self.unstable_ents.len() - 1;
            proof {
                assert(self.unstable()[pos as int] == self.unstable_ents@[pos as int]@);
            }
            self.unstable_ents[pos].index
        } else {
            self.stable_index()
        }
    }

    /// The highest durable index.
    pub fn stable_index(&self) -> (r: u64)
        requires
            self.wf(),
        ensures
            r as nat == self.stable().len(),
    {
        self.storage.stable_index()
    }

    /// The position of the unstable entry with the given index, if any.
    pub fn find_index_pos(&self, index: u64) -> (r: Option<usize>)
        requires
            self.wf(),
        ensures
            match r {
                Some(p) => p < self.unstable().len() && self.unstable()[p as int].index == index,
                None => forall|k: int| 0 <= k < self.unstable().len() ==> (#[trigger] self.unstable(
                )[k]).index != index,
            },
    {
        let mut pos: usize = 0;
        while pos < self.unstable_ents.len()
            invariant
                self.wf(),
                pos <= self.unstable().len(),
                forall|k: int| 0 <= k < pos ==> (#[trigger] self.unstable()[k]).index != index,
            decreases self.unstable_ents.len() - pos,
        {
            if self.unstable_ents[pos].index == index {
                proof {
                    assert(self.unstable()[pos as int] == self.unstable_ents@[pos as int]@);
                }
                return Some(pos);
            }
            pos = pos + 1;
        }
        None
    }

    /// The position of the first unstable entry whose index occurs in the
    /// batch, if any.
    pub fn find_conflict(&self, entries: &Vec<Entry>) -> (r: Option<usize>)
        requires
            self.wf(),
        ensures
            match r {
                Some(p) => {
                    &&& p < self.unstable().len()
                    &&& exists|j: int| 0 <= j < entries@.len() && (#[trigger] entries@[j]@).index
                        == self.unstable()[p as int].index
                    &&& forall|k: int, j: int| 0 <= k < p && 0 <= j < entries@.len() ==> (
                    #[trigger] self.unstable()[k]).index != (#[trigger] entries@[j]@).index
                },
                None => forall|k: int, j: int|
                    0 <= k < self.unstable().len() && 0 <= j < entries@.len() ==> (
                    #[trigger] self.unstable()[k]).index != (#[trigger] entries@[j]@).index,
            },
    {
        let mut pos: usize = 0;
        while pos < self.unstable_ents.len()
            invariant
                self.wf(),
                pos <= self.unstable().len(),
                forall|k: int, j: int| 0 <= k < pos && 0 <= j < entries@.len() ==> (
                #[trigger] self.unstable()[k]).index != (#[trigger] entries@[j]@).index,
            decreases self.unstable_ents.len() - pos,
        {
            let mut j: usize = 0;
            while j < entries.len()
                invariant
                    self.wf(),
                    pos < self.unstable().len(),
                    j <= entries@.len(),
                    forall|q: int| 0 <= q < j ==> (#[trigger] entries@[q]@).index != self.unstable(
                    )[pos as int].index,
                    forall|k: int, q: int| 0 <= k < pos && 0 <= q < entries@.len() ==> (
                    #[trigger] self.unstable()[k]).index != (#[trigger] entries@[q]@).index,
                decreases entries@.len() - j,
            {
                if entries[j].index == self.unstable_ents[pos].index {
                    proof {
                        assert(self.unstable()[pos as int] == self.unstable_ents@[pos as int]@);
                        assert((entries@[j as int]@).index == self.unstable()[pos as int].index);
                    }
                    return Some(pos);
                }
                j = j + 1;
            }
            pos = pos + 1;
        }
        None
    }
}


impl<S: Storage> Log<S> {
    /// How many entries sit in the unstable tail.
    pub fn unstable_len(&self) -> (r: usize)
        ensures
            r == self.unstable().len(),
    {
        self.unstable_ents.len()
    }

    /// One unstable entry, by position.
    pub fn unstable_entry(&self, pos: usize) -> (r: &Entry)
        requires
            pos < self.unstable().len(),
        ensures
            r@ == self.unstable()[pos as int],
    {
        proof {
            assert(self.unstable()[pos as int] == self.unstable_ents@[pos as int]@);
        }
        &self.unstable_ents[pos]
    }

    /// The stable store itself, for inspection.
    pub fn storage(&self) -> (r: &S)
        ensures
            r.stable_seq() == self.stable(),
    {
        &self.storage
    }

    /// Appends a batch, resolving conflicts by truncation.
    ///
    /// An empty batch is a no-op. A batch reaching into the stable prefix is
    /// refused outright; one starting past the next free index is refused as
    /// a gap. Otherwise the unstable tail is cut at the first index the
    /// batch re-proposes and the whole batch is appended, so afterwards the
    /// last index equals the last appended entry's index. The last index
    /// never decreases unless a successful batch ends below the old last
    /// index, in which case it ends exactly at the batch's last entry.
    #[verifier::rlimit(60)]
    pub fn try_commit(&mut self, entries: Vec<Entry>) -> (r: Result<(), CommitErr>)
        requires
            old(self).wf(),
            batch_wf(entries_view(entries@)),
        ensures
            final(self).wf(),
            final(self).stable() == old(self).stable(),
            entries@.len() == 0 ==> (r matches Ok(_) && final(self).unstable() == old(self).unstable() && final(self).last_term_spec() == old(self).last_term_spec()),
            entries@.len() > 0 && entries_view(entries@)[0].index as nat <= old(self).stable().len() ==> (r matches Err(e) && e == CommitErr::CannotRevertStableIndex
                && final(self).unstable() == old(self).unstable() && final(self).last_term_spec()
                == old(self).last_term_spec()),
            entries@.len() > 0 && entries_view(entries@)[0].index as nat > old(self).stable().len() && entries_view(entries@)[0].index as nat > old(self).last_index_spec() + 1 ==> (r matches Err(e) && e == CommitErr::IndexTooHigh && final(self).unstable() == old(self).unstable() && final(self).last_term_spec() == old(self).last_term_spec()),
            entries@.len() > 0 && entries_view(entries@)[0].index as nat > old(self).stable().len() && entries_view(entries@)[0].index as nat <= old(self).last_index_spec() + 1 ==> (r matches Ok(_) && final(self).unstable() == old(self).unstable().take(
                entries_view(entries@)[0].index - old(self).stable().len() - 1,
            ) + entries_view(entries@) && final(self).last_term_spec() == entries_view(
                entries@,
            ).last().term && final(self).last_index_spec() == entries_view(
                entries@,
            ).last().index as nat),
            r matches Ok(_) && (entries@.len() == 0 || entries_view(entries@).last().index as nat
                >= old(self).last_index_spec()) ==> final(self).last_index_spec() >= old(
                self,
            ).last_index_spec(),
    {
        let ghost ev = entries_view(entries@);
        if entries.len() == 0 {
            return Ok(());
        }
        proof {
            assert(ev[0] == entries@[0]@);
            assert(ev.last() == entries@[entries@.len() - 1]@);
        }
        let first = entries[0].index;
        let si = self.storage.stable_index();
        if first <= si {
            return Err(CommitErr::CannotRevertStableIndex);
        }
        let last = self.last_index();
        if first - 1 > last {
            return Err(CommitErr::IndexTooHigh);
        }
        let ghost cut = first - si - 1;
        match self.find_conflict(&entries) {
            Option::Some(p) => {
                proof {
                    let j = choose|j: int|
                        0 <= j < entries@.len() && (#[trigger] entries@[j]@).index
                            == self.unstable()[p as int].index;
                    assert(ev[j] == entries@[j]@);
                    assert(ev[j].index == ev[0].index + j);
                    assert(self.unstable()[p as int].index == self.stable().len() + p + 1);
                    assert(p >= cut);
                    if p > cut {
                        assert(self.unstable()[cut as int].index == si + cut + 1);
                        assert(ev[0].index == first);
                        assert((entries@[0]@).index == self.unstable()[cut as int].index);
                        assert(false);
                    }
                }
                self.unstable_ents.truncate(p as usize);
            },
            Option::None => {
                proof {
                    if first as nat <= old(self).last_index_spec() {
                        assert(self.unstable()[cut as int].index == si + cut + 1);
                        assert((entries@[0]@).index == self.unstable()[cut as int].index);
                        assert(false);
                    }
                    assert(self.unstable_ents@.take(cut as int) =~= self.unstable_ents@);
                }
            },
        }
        self.last_term = entries[entries.len() - 1].term;
        let mut moved = entries;
        self.unstable_ents.append(&mut moved);
        proof {
            assert(self.unstable() =~= old(self).unstable().take(cut as int) + ev);
            assert(ev.last().index == ev[0].index + (ev.len() - 1));
            assert forall|k: int| 0 <= k < self.unstable().len() implies (#[trigger] self.unstable(
            )[k]).index == self.stable().len() + k + 1 by {
                if k < cut {
                    assert(self.unstable()[k] == old(self).unstable()[k]);
                } else {
                    assert(self.unstable()[k] == ev[k - cut]);
                    assert(ev[k - cut].index == ev[0].index + (k - cut));
                }
            }
        }
        Ok(())
    }

    /// Moves the unstable prefix up to `index` — or the whole tail when
    /// `index` runs past it — into stable storage. Afterwards the stable
    /// index is at least the smaller of `index` and the old last index, and
    /// the union of stable and unstable entries is exactly what it was.
    pub fn stabilize_to(&mut self, index: u64)
        requires
            old(self).wf(),
        ensures
            final(self).wf(),
            final(self).all() == old(self).all(),
            final(self).last_term_spec() == old(self).last_term_spec(),
            final(self).last_index_spec() == old(self).last_index_spec(),
            final(self).stable().len() >= (if index as nat <= old(self).last_index_spec() {
                index as nat
            } else {
                old(self).last_index_spec()
            }),
            index as nat <= old(self).stable().len() ==> final(self).stable() == old(self).stable() && final(self).unstable() == old(self).unstable(),
            index as nat > old(self).stable().len() ==> {
                let target: nat = if index as nat <= old(self).last_index_spec() {
                    index as nat
                } else {
                    old(self).last_index_spec()
                };
                &&& final(self).stable().len() == target
                &&& final(self).stable() == old(self).all().take(target as int)
                &&& final(self).unstable() == old(self).unstable().skip(
                    target - old(self).stable().len(),
                )
            },
    {
        let si = self.storage.stable_index();
        if index <= si {
            proof {
                assert(final(self).all() =~= old(self).all());
            }
            return;
        }
        let last = self.last_index();
        let target = if index <= last {
            index
        } else {
            last
        };
        let ulen = self.unstable_ents.len();
        proof {
            assert(target - si <= ulen);
        }
        let count = (target - si) as usize;
        let ghost before = self.unstable_ents@;
        let mut rest = self.unstable_ents.split_off(count);
        core::mem::swap(&mut self.unstable_ents, &mut rest);
        proof {
            assert(self.unstable_ents@ =~= before.skip(count as int));
            assert(rest@ =~= before.take(count as int));
            assert(entries_view(rest@) =~= old(self).unstable().take(count as int));
            assert(entries_view(self.unstable_ents@) =~= old(self).unstable().skip(count as int));
        }
        self.storage.commit_stable_entries(rest);
        proof {
            assert(old(self).stable().len() == si as nat);
            assert(count as int == target - si);
            assert(self.stable() =~= old(self).stable() + old(self).unstable().take(
                count as int,
            ));
            assert(old(self).all().take(target as int) =~= old(self).stable() + old(self).unstable().take(count as int));
            assert(self.stable() =~= old(self).all().take(target as int));
            assert(self.all() =~= old(self).all());
        }
    }

    /// Whether the log holds the entry `(term, index)`: stable entries are
    /// trusted by index alone, unstable ones must match on term too.
    pub fn contains_entry(&self, term: u64, index: u64) -> (r: bool)
        requires
            self.wf(),
        ensures
            index as nat <= self.stable().len() ==> r == true,
            self.stable().len() < index as nat <= self.last_index_spec() ==> r == (self.unstable()[
                index - self.stable().len() - 1
            ].term == term),
            index as nat > self.last_index_spec() ==> r == false,
    {
        let si = self.storage.stable_index();
        if index <= si {
            return true;
        }
        match self.find_index_pos(index) {
            Option::Some(p) => {
                proof {
                    assert(self.unstable()[p as int].index == si + p + 1);
                }
                self.unstable_ents[p].term == term
            },
            Option::None => {
                proof {
                    if index as nat <= self.last_index_spec() {
                        let k = index - si - 1;
                        assert(self.unstable()[k as int].index == si + k + 1);
                        assert(false);
                    }
                }
                false
            },
        }
    }

    /// The freshness relation used in leader election.
    pub fn is_up_to_date(&self, last_index: u64, last_term: u64) -> (r: bool)
        requires
            self.wf(),
        ensures
            r == up_to_date_spec(
                self.last_term_spec(),
                self.last_index_spec(),
                last_index,
                last_term,
            ),
    {
        let term = self.last_term();
        last_term > term || (last_term == term && last_index >= self.last_index())
    }

    /// Fetches one entry by index, from the unstable tail or from stable
    /// storage.
    pub fn get_entry_by_index(&self, index: u64) -> (r: Option<Entry>)
        requires
            self.wf(),
        ensures
            1 <= index as nat <= self.stable().len() ==> (r matches Some(e) && e@ == self.stable()[
                index - 1
            ]),
            self.stable().len() < index as nat <= self.last_index_spec() ==> (r matches Some(e)
                && e@ == self.unstable()[index - self.stable().len() - 1]),
            index as nat == 0 || index as nat > self.last_index_spec() ==> r is None,
    {
        let si = self.storage.stable_index();
        if index > si {
            match self.find_index_pos(index) {
                Option::Some(p) => {
                    proof {
                        assert(self.unstable()[p as int].index == si + p + 1);
                        assert(self.unstable()[p as int] == self.unstable_ents@[p as int]@);
                    }
                    Some(self.unstable_ents[p].duplicate())
                },
                Option::None => {
                    proof {
                        if index as nat <= self.last_index_spec() {
                            let k = index - si - 1;
                            assert(self.unstable()[k as int].index == si + k + 1);
                            assert(false);
                        }
                    }
                    None
                },
            }
        } else {
            self.storage.retrieve_stable_entry(index)
        }
    }
}

/// The freshness relation over `(last_index, last_term)` pairs: a candidate
/// is up to date when its term is newer, or equal with at least as long a
/// log.
pub open spec fn up_to_date_spec(our_term: u64, our_index: nat, their_index: u64, their_term: u64) -> bool {
    their_term > our_term || (their_term == our_term && their_index as nat >= our_index)
}

/// The freshness relation is reflexive: a log is up to date with itself.
pub proof fn lemma_up_to_date_reflexive(our_term: u64, our_index: u64)
    ensures
        up_to_date_spec(our_term, our_index as nat, our_index, our_term),
{
}

/// The freshness relation is monotone in the candidate's term.
pub proof fn lemma_up_to_date_monotone_term(
    our_term: u64,
    our_index: nat,
    their_index: u64,
    t1: u64,
    t2: u64,
)
    requires
        t1 <= t2,
        up_to_date_spec(our_term, our_index, their_index, t1),
    ensures
        up_to_date_spec(our_term, our_index, their_index, t2),
{
}

/// At equal terms, the freshness relation is monotone in the candidate's
/// last index.
pub proof fn lemma_up_to_date_monotone_index(
    our_term: u64,
    our_index: nat,
    i1: u64,
    i2: u64,
    their_term: u64,
)
    requires
        i1 <= i2,
        up_to_date_spec(our_term, our_index, i1, their_term),
    ensures
        up_to_date_spec(our_term, our_index, i2, their_term),
{
}

} // verus!
