//! The translation table: a bidirectional map between names, locally
//! assigned ids, and the ids the peer assigned to the same names. One
//! table serves one dimension (senders or types).
//!
//! Local ids are dense small non-negative integers assigned in insertion
//! order starting at 0: an entry's local id is its index. A name may be
//! registered before its remote id is known. Reserved (negative) ids never
//! enter the table.

use vstd::prelude::*;

use crate::types::{IdType, LocalId, RemoteId};
use crate::unbuffer::bytes_equal;

verus! {

/// One name known to the table, with the peer's id for it once learned.
#[derive(Debug, Clone, PartialEq, Eq)]
pub struct TranslationEntry {
    pub name: Vec<u8>,
    pub remote_id: Option<IdType>,
}

/// Error from recording a remote mapping.
#[derive(Debug, Clone, Copy, PartialEq, Eq, Structural)]
pub enum TranslationError {
    /// The remote id is already bound to a different name.
    RemoteIdConflict,
    /// The remote id is reserved (negative) and cannot be recorded.
    ReservedId,
    /// The table is full: no further local id can be assigned.
    TableFull,
}

/// A sender or type translation table.
#[derive(Debug, Clone, PartialEq, Eq)]
pub struct TranslationTable {
    pub entries: Vec<TranslationEntry>,
}

/// Some entry already binds `remote` to a different name, so recording
/// `(name, remote)` must be rejected.
pub open spec fn spec_remote_conflict(t: TranslationTable, name: Seq<u8>, remote: IdType) -> bool {
    exists|j: int|
        0 <= j < t.entries@.len() && #[trigger] t.entries@[j].remote_id == Some(remote)
            && t.entries@[j].name@ != name
}

/// Recording `(name, remote)` would need a fresh local id and none is
/// left: `remote` is unbound, the name is unknown, and the table is at
/// capacity.
pub open spec fn spec_record_full(t: TranslationTable, name: Seq<u8>, remote: IdType) -> bool {
    &&& forall|j: int|
        0 <= j < t.entries@.len() ==> #[trigger] t.entries@[j].remote_id != Some(remote)
    &&& !t.spec_contains_name(name)
    &&& t.entries@.len() == i32::MAX
}

/// What a successful recording of `(name, remote)` leaves behind: entry
/// `l` binds `remote` under `name`, every other entry is untouched, and a
/// name the table did not know was appended at the old length.
pub open spec fn spec_recorded(
    pre: TranslationTable,
    post: TranslationTable,
    name: Seq<u8>,
    remote: IdType,
    l: IdType,
) -> bool {
    &&& 0 <= l < post.entries@.len()
    &&& post.entries@[l as int].name@ == name
    &&& post.entries@[l as int].remote_id == Some(remote)
    &&& post.spec_map_to_local(remote) == Some(l)
    &&& forall|j: int|
        0 <= j < post.entries@.len() && j != l ==> j < pre.entries@.len()
            && #[trigger] post.entries@[j] == pre.entries@[j]
    &&& (pre.spec_contains_name(name) ==> post.entries@.len() == pre.entries@.len())
    &&& (!pre.spec_contains_name(name) ==> post.entries@.len() == pre.entries@.len() + 1 && l
        == pre.entries@.len())
}

impl TranslationTable {
    /// The table's invariant: names are unique, bound remote ids are
    /// unique and non-negative, and every index fits an id.
    pub open spec fn well_formed(self) -> bool {
        &&& self.entries@.len() <= i32::MAX
        &&& forall|i: int, j: int|
            0 <= i < j < self.entries@.len() ==> #[trigger] self.entries@[i].name@
                != #[trigger] self.entries@[j].name@
        &&& forall|i: int, j: int|
            0 <= i < j < self.entries@.len() && #[trigger] self.entries@[i].remote_id is Some
                && #[trigger] self.entries@[j].remote_id is Some ==> self.entries@[i].remote_id
                != self.entries@[j].remote_id
        &&& forall|i: int|
            0 <= i < self.entries@.len() && #[trigger] self.entries@[i].remote_id is Some
                ==> self.entries@[i].remote_id->0 >= 0
    }

    /// Whether some entry carries this name.
    pub open spec fn spec_contains_name(self, name: Seq<u8>) -> bool {
        exists|i: int| 0 <= i < self.entries@.len() && #[trigger] self.entries@[i].name@ == name
    }

    /// The remote id bound to a local id, if any.
    pub open spec fn spec_map_to_remote(self, local: IdType) -> Option<IdType> {
        if 0 <= local < self.entries@.len() {
            self.entries@[local as int].remote_id
        } else {
            None
        }
    }

    /// The local id a remote id is bound to, if any.
    pub open spec fn spec_map_to_local(self, remote: IdType) -> Option<IdType> {
        if exists|i: int|
            0 <= i < self.entries@.len() && #[trigger] self.entries@[i].remote_id == Some(remote) {
            Some(
                (choose|i: int|
                    0 <= i < self.entries@.len() && #[trigger] self.entries@[i].remote_id == Some(
                        remote,
                    )) as IdType,
            )
        } else {
            None
        }
    }

    pub fn new() -> (r: TranslationTable)
        ensures
            r.well_formed(),
            r.entries@.len() == 0,
    {
        TranslationTable { entries: Vec::new() }
    }

    /// How many names the table holds (the next local id to be assigned).
    pub fn len(&self) -> (r: usize)
        ensures
            r == self.entries@.len(),
    {
        self.entries.len()
    }

    /// The index of the entry carrying `name`, if any.
    fn find_by_name(&self, name: &[u8]) -> (r: Option<usize>)
        ensures
            match r {
                Some(i) => 0 <= i < self.entries@.len() && self.entries@[i as int].name@ == name@,
                None => !self.spec_contains_name(name@),
            },
    {
        let mut i: usize = 0;
        while i < self.entries.len()
            invariant
                i <= self.entries@.len(),
                forall|j: int| 0 <= j < i ==> #[trigger] self.entries@[j].name@ != name@,
            decreases self.entries@.len() - i,
        {
            if bytes_equal(&self.entries[i].name, name) {
                return Some(i);
            }
            i = i + 1;
        }
        None
    }

    /// The index of the entry whose remote id is `remote`, if any.
    fn find_by_remote(&self, remote: IdType) -> (r: Option<usize>)
        ensures
            match r {
                Some(i) => 0 <= i < self.entries@.len() && self.entries@[i as int].remote_id
                    == Some(remote),
                None => forall|j: int|
                    0 <= j < self.entries@.len() ==> #[trigger] self.entries@[j].remote_id
                        != Some(remote),
            },
    {
        let mut i: usize = 0;
        while i < self.entries.len()
            invariant
                i <= self.entries@.len(),
                forall|j: int| 0 <= j < i ==> #[trigger] self.entries@[j].remote_id != Some(remote),
            decreases self.entries@.len() - i,
        {
            match self.entries[i].remote_id {
                Some(r) => {
                    if r == remote {
                        return Some(i);
                    }
                },
                None => {},
            }
            i = i + 1;
        }
        None
    }

    /// Register a name locally, assigning the next dense local id; if the
    /// name is already known, return its existing id (idempotent by name).
    pub fn add_local_mapping(&mut self, name: &[u8]) -> (r: Result<LocalId, TranslationError>)
        requires
            old(self).well_formed(),
        ensures
            final(self).well_formed(),
            ({
                let pre = *old(self);
                let post = *final(self);
                &&& pre.spec_contains_name(name@) ==> (r matches Ok(l) && post == pre && 0 <= l.0
                    < pre.entries@.len() && pre.entries@[l.0 as int].name@ == name@)
                &&& (!pre.spec_contains_name(name@) && pre.entries@.len() < i32::MAX) ==> (
                r matches Ok(l) && l.0 == pre.entries@.len() && post.entries@.len()
                    == pre.entries@.len() + 1 && post.entries@.last().name@ == name@
                    && post.entries@.last().remote_id is None && forall|i: int|
                    0 <= i < pre.entries@.len() ==> post.entries@[i] == pre.entries@[i])
                &&& (!pre.spec_contains_name(name@) && pre.entries@.len() == i32::MAX) ==> r
                    == Err::<LocalId, TranslationError>(TranslationError::TableFull) && post == pre
            }),
    {
        match self.find_by_name(name) {
            Some(i) => Ok(LocalId(i as IdType)),
            None => {
                if self.entries.len() >= i32::MAX as usize {
                    return Err(TranslationError::TableFull);
                }
                let idx = self.entries.len();
                self.entries.push(
                    TranslationEntry { name: crate::unbuffer::slice_to_vec(name), remote_id: None },
                );
                proof {
                    assert(forall|i: int|
                        0 <= i < old(self).entries@.len() ==> final(self).entries@[i] == old(
                            self,
                        ).entries@[i]);
                }
                Ok(LocalId(idx as IdType))
            },
        }
    }

    /// Record the peer's id for a name, allocating a local id for the name
    /// if it was unknown. Rebinding the same pair is a no-op; rebinding a
    /// remote id that is bound to a different name is rejected. Learning a
    /// new remote id for a name replaces the one previously bound to it.
    pub fn record_remote_mapping(&mut self, name: &[u8], remote: RemoteId) -> (r: Result<
        LocalId,
        TranslationError,
    >)
        requires
            old(self).well_formed(),
        ensures
            final(self).well_formed(),
            ({
                let pre = *old(self);
                let post = *final(self);
                &&& remote.0 < 0 ==> r == Err::<LocalId, TranslationError>(
                    TranslationError::ReservedId,
                ) && post == pre
                &&& remote.0 >= 0 ==> (match r {
                    Ok(l) => spec_recorded(pre, post, name@, remote.0, l.0)
                        && !spec_remote_conflict(pre, name@, remote.0),
                    Err(TranslationError::RemoteIdConflict) => post == pre && spec_remote_conflict(
                        pre,
                        name@,
                        remote.0,
                    ),
                    Err(TranslationError::TableFull) => post == pre && spec_record_full(
                        pre,
                        name@,
                        remote.0,
                    ),
                    Err(TranslationError::ReservedId) => false,
                })
                &&& (remote.0 >= 0 && !spec_remote_conflict(pre, name@, remote.0)
                    && !spec_record_full(pre, name@, remote.0)) ==> r is Ok
            }),
    {
        if remote.0 < 0 {
            return Err(TranslationError::ReservedId);
        }
        match self.find_by_remote(remote.0) {
            Some(j) => {
                if bytes_equal(&self.entries[j].name, name) {
                    // Rebinding the same pair: a no-op.
                    proof {
                        lemma_unique_remote(*self, j as int, remote.0);
                        assert(self.spec_contains_name(name@));
                        assert forall|j2: int|
                            0 <= j2 < self.entries@.len() && #[trigger] self.entries@[j2].remote_id
                                == Some(remote.0) implies self.entries@[j2].name@ == name@ by {
                            if j2 < j as int {
                                assert(self.entries@[j2].remote_id != self.entries@[j as int].remote_id);
                            } else if j2 > j as int {
                                assert(self.entries@[j as int].remote_id != self.entries@[j2].remote_id);
                            }
                        }
                    }
                    Ok(LocalId(j as IdType))
                } else {
                    proof {
                        assert(spec_remote_conflict(*self, name@, remote.0));
                    }
                    Err(TranslationError::RemoteIdConflict)
                }
            },
            None => {
                let idx = match self.find_by_name(name) {
                    Some(i) => i,
                    None => {
                        if self.entries.len() >= i32::MAX as usize {
                            proof {
                                assert(self.entries@.len() == i32::MAX);
                            }
                            return Err(TranslationError::TableFull);
                        }
                        let idx = self.entries.len();
                        self.entries.push(
                            TranslationEntry {
                                name: crate::unbuffer::slice_to_vec(name),
                                remote_id: None,
                            },
                        );
                        idx
                    },
                };
                let entry = &mut self.entries[idx];
                entry.remote_id = Some(remote.0);
                proof {
                    lemma_unique_remote(*self, idx as int, remote.0);
                }
                Ok(LocalId(idx as IdType))
            },
        }
    }

    /// Look up the local id for a peer-assigned id.
    pub fn map_to_local(&self, remote: RemoteId) -> (r: Option<LocalId>)
        requires
            self.well_formed(),
        ensures
            match r {
                Some(l) => self.spec_map_to_local(remote.0) == Some(l.0),
                None => self.spec_map_to_local(remote.0) is None,
            },
    {
        match self.find_by_remote(remote.0) {
            Some(i) => {
                proof {
                    lemma_unique_remote(*self, i as int, remote.0);
                }
                Some(LocalId(i as IdType))
            },
            None => None,
        }
    }

    /// Look up the peer's id for a locally assigned id.
    pub fn map_to_remote(&self, local: LocalId) -> (r: Option<RemoteId>)
        requires
            self.well_formed(),
        ensures
            match r {
                Some(rem) => self.spec_map_to_remote(local.0) == Some(rem.0),
                None => self.spec_map_to_remote(local.0) is None,
            },
    {
        if local.0 < 0 {
            return None;
        }
        let idx = local.0 as usize;
        if idx >= self.entries.len() {
            return None;
        }
        match self.entries[idx].remote_id {
            Some(rem) => Some(RemoteId(rem)),
            None => None,
        }
    }

    /// Every `(local id, name)` pair the table holds, in local-id order,
    /// for emitting description messages to a new peer.
    pub fn iter_pairs(&self) -> (r: Vec<(IdType, Vec<u8>)>)
        requires
            self.well_formed(),
        ensures
            r@.len() == self.entries@.len(),
            forall|i: int|
                0 <= i < r@.len() ==> #[trigger] r@[i].0 == i && r@[i].1@
                    == self.entries@[i].name@,
    {
        let mut out: Vec<(IdType, Vec<u8>)> = Vec::new();
        let mut i: usize = 0;
        while i < self.entries.len()
            invariant
                self.well_formed(),
                i <= self.entries@.len(),
                out@.len() == i,
                forall|j: int|
                    0 <= j < i ==> #[trigger] out@[j].0 == j && out@[j].1@
                        == self.entries@[j].name@,
            decreases self.entries@.len() - i,
        {
            out.push((i as IdType, crate::unbuffer::slice_to_vec(self.entries[i].name.as_slice())));
            i = i + 1;
        }
        out
    }
}

/// In a well-formed table the entry bound to a remote id is the one the
/// `choose` in `spec_map_to_local` picks.
proof fn lemma_unique_remote(t: TranslationTable, i: int, remote: IdType)
    requires
        t.well_formed(),
        0 <= i < t.entries@.len(),
        t.entries@[i].remote_id == Some(remote),
    ensures
        t.spec_map_to_local(remote) == Some(i as IdType),
{
    assert(exists|k: int|
        0 <= k < t.entries@.len() && #[trigger] t.entries@[k].remote_id == Some(remote));
    let k = choose|k: int|
        0 <= k < t.entries@.len() && #[trigger] t.entries@[k].remote_id == Some(remote);
    if k != i {
        if k < i {
            assert(t.entries@[k].remote_id != t.entries@[i].remote_id);
        } else {
            assert(t.entries@[i].remote_id != t.entries@[k].remote_id);
        }
    }
}

/// Translation injectivity: mapping a local id out to the peer's id and
/// back returns the same local id, and the other way round — the two maps
/// are a partial injection, after any sequence of registrations that kept
/// the table well-formed.
pub proof fn lemma_translation_injective(t: TranslationTable, local: IdType, remote: IdType)
    requires
        t.well_formed(),
    ensures
        t.spec_map_to_remote(local) == Some(remote) ==> t.spec_map_to_local(remote) == Some(local),
        t.spec_map_to_local(remote) == Some(local) ==> t.spec_map_to_remote(local) == Some(remote),
{
    if t.spec_map_to_remote(local) == Some(remote) {
        lemma_unique_remote(t, local as int, remote);
    }
    if t.spec_map_to_local(remote) == Some(local) {
        let k = choose|k: int|
            0 <= k < t.entries@.len() && #[trigger] t.entries@[k].remote_id == Some(remote);
        assert(t.entries@[k].remote_id == Some(remote));
    }
}

} // verus!
