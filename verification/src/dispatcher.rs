//! Handler registration and dispatch. Handlers are registered under a
//! `(type filter, sender filter)` key, each filter either a concrete local
//! id or the wildcard. The dispatcher does not hold the callbacks
//! themselves: registration hands out a handle, dispatch returns the
//! handles to invoke, in order, and the owner maps handles to callbacks.
//! That keeps the callback arena outside and the ordering rules provable.

use vstd::prelude::*;

use crate::translation::{TranslationError, TranslationTable};
use crate::types::{IdType, LocalId};

verus! {

/// What a handler asks after being invoked.
#[derive(Debug, Clone, Copy, PartialEq, Eq, Structural)]
pub enum HandlerCode {
    /// Keep the handler registered.
    ContinueProcessing,
    /// Unregister this handler before the next dispatch.
    RemoveThisHandler,
}

/// A registered handler, named by the handle given out at registration.
#[derive(Debug, Clone, Copy, PartialEq, Eq, Structural)]
pub struct HandlerHandle(pub u64);

/// Error from registering or removing a handler.
#[derive(Debug, Clone, Copy, PartialEq, Eq, Structural)]
pub enum HandlerError {
    /// A concrete filter named a reserved (negative) id: system message
    /// types are never exposed to user registrations.
    InvalidFilter,
    /// No handler is registered under the given handle.
    HandlerNotFound,
    /// The handle counter is exhausted.
    HandlersFull,
}

/// One registration: its handle and its key. A `None` filter is the
/// wildcard.
#[derive(Debug, Clone, Copy, PartialEq, Eq, Structural)]
pub struct HandlerEntry {
    pub handle: u64,
    pub type_filter: Option<IdType>,
    pub sender_filter: Option<IdType>,
}

/// The handles of the entries whose key is exactly `(tf, sf)`, in
/// registration order.
pub open spec fn matching_handles(
    entries: Seq<HandlerEntry>,
    tf: Option<IdType>,
    sf: Option<IdType>,
) -> Seq<u64>
    decreases entries.len(),
{
    if entries.len() == 0 {
        Seq::empty()
    } else {
        let rest = matching_handles(entries.drop_last(), tf, sf);
        if entries.last().type_filter == tf && entries.last().sender_filter == sf {
            rest.push(entries.last().handle)
        } else {
            rest
        }
    }
}

/// Dispatch order for a message with local ids `(t, s)`: the handlers
/// whose key matches exactly come first, then those wildcarded on one
/// dimension, then the fully wildcarded ones; within each key,
/// registration order.
pub open spec fn spec_dispatch_order(entries: Seq<HandlerEntry>, t: IdType, s: IdType) -> Seq<
    u64,
> {
    matching_handles(entries, Some(t), Some(s)) + matching_handles(entries, Some(t), None)
        + matching_handles(entries, None, Some(s)) + matching_handles(entries, None, None)
}

/// Registration and invocation of handlers keyed by `(type, sender)`,
/// together with the translation tables for both dimensions.
#[derive(Debug, Clone, PartialEq, Eq)]
pub struct TypeDispatcher {
    pub types: TranslationTable,
    pub senders: TranslationTable,
    pub handlers: Vec<HandlerEntry>,
    pub next_handle: u64,
}

/// Exact equality of two filters.
fn filters_match(a: Option<IdType>, b: Option<IdType>) -> (r: bool)
    ensures
        r == (a == b),
{
    match (a, b) {
        (None, None) => true,
        (Some(x), Some(y)) => x == y,
        _ => false,
    }
}

impl TypeDispatcher {
    /// The dispatcher's invariant: well-formed tables, unique handles all
    /// below the counter, and no filter naming a reserved id.
    pub open spec fn well_formed(self) -> bool {
        &&& self.types.well_formed()
        &&& self.senders.well_formed()
        &&& forall|i: int|
            0 <= i < self.handlers@.len() ==> #[trigger] self.handlers@[i].handle
                < self.next_handle
        &&& forall|i: int, j: int|
            0 <= i < j < self.handlers@.len() ==> #[trigger] self.handlers@[i].handle
                != #[trigger] self.handlers@[j].handle
        &&& forall|i: int|
            0 <= i < self.handlers@.len() ==> (#[trigger] self.handlers@[i].type_filter matches Some(
                t,
            ) ==> t >= 0)
        &&& forall|i: int|
            0 <= i < self.handlers@.len() ==> (#[trigger] self.handlers@[i].sender_filter matches Some(
                t,
            ) ==> t >= 0)
    }

    pub fn new() -> (r: TypeDispatcher)
        ensures
            r.well_formed(),
            r.handlers@.len() == 0,
            r.types.entries@.len() == 0,
            r.senders.entries@.len() == 0,
    {
        TypeDispatcher {
            types: TranslationTable::new(),
            senders: TranslationTable::new(),
            handlers: Vec::new(),
            next_handle: 0,
        }
    }

    /// Register a message-type name, assigning or returning its local id.
    pub fn register_type(&mut self, name: &[u8]) -> (r: Result<LocalId, TranslationError>)
        requires
            old(self).well_formed(),
        ensures
            final(self).well_formed(),
            final(self).senders == old(self).senders,
            final(self).handlers == old(self).handlers,
            final(self).next_handle == old(self).next_handle,
            ({
                let pre = old(self).types;
                let post = final(self).types;
                &&& pre.spec_contains_name(name@) ==> (r matches Ok(l) && post == pre && 0 <= l.0
                    < pre.entries@.len() && pre.entries@[l.0 as int].name@ == name@)
                &&& (!pre.spec_contains_name(name@) && pre.entries@.len() < i32::MAX) ==> (
                r matches Ok(l) && l.0 == pre.entries@.len() && post.entries@.len()
                    == pre.entries@.len() + 1 && post.entries@.last().name@ == name@
                    && post.entries@.last().remote_id is None && forall|i: int|
                    0 <= i < pre.entries@.len() ==> post.entries@[i] == pre.entries@[i])
                &&& (!pre.spec_contains_name(name@) && pre.entries@.len() == i32::MAX) ==> r
                    == Err::<LocalId, TranslationError>(TranslationError::TableFull) && post == pre
            }),
    {
        self.types.add_local_mapping(name)
    }

    /// Register a sender name, assigning or returning its local id.
    pub fn register_sender(&mut self, name: &[u8]) -> (r: Result<LocalId, TranslationError>)
        requires
            old(self).well_formed(),
        ensures
            final(self).well_formed(),
            final(self).types == old(self).types,
            final(self).handlers == old(self).handlers,
            final(self).next_handle == old(self).next_handle,
            ({
                let pre = old(self).senders;
                let post = final(self).senders;
                &&& pre.spec_contains_name(name@) ==> (r matches Ok(l) && post == pre && 0 <= l.0
                    < pre.entries@.len() && pre.entries@[l.0 as int].name@ == name@)
                &&& (!pre.spec_contains_name(name@) && pre.entries@.len() < i32::MAX) ==> (
                r matches Ok(l) && l.0 == pre.entries@.len() && post.entries@.len()
                    == pre.entries@.len() + 1 && post.entries@.last().name@ == name@
                    && post.entries@.last().remote_id is None && forall|i: int|
                    0 <= i < pre.entries@.len() ==> post.entries@[i] == pre.entries@[i])
                &&& (!pre.spec_contains_name(name@) && pre.entries@.len() == i32::MAX) ==> r
                    == Err::<LocalId, TranslationError>(TranslationError::TableFull) && post == pre
            }),
    {
        self.senders.add_local_mapping(name)
    }

    /// Register a handler under a `(type, sender)` key; `None` is the
    /// wildcard. Returns the handle that names the registration.
    pub fn register_handler(
        &mut self,
        type_filter: Option<LocalId>,
        sender_filter: Option<LocalId>,
    ) -> (r: Result<HandlerHandle, HandlerError>)
        requires
            old(self).well_formed(),
        ensures
            final(self).well_formed(),
            final(self).types == old(self).types,
            final(self).senders == old(self).senders,
            ({
                let tf = match type_filter {
                    Some(l) => Some(l.0),
                    None => None,
                };
                let sf = match sender_filter {
                    Some(l) => Some(l.0),
                    None => None,
                };
                &&& ((type_filter matches Some(l) && l.0 < 0) || (sender_filter matches Some(l)
                    && l.0 < 0)) ==> r == Err::<HandlerHandle, HandlerError>(
                    HandlerError::InvalidFilter,
                ) && *final(self) == *old(self)
                &&& (!((type_filter matches Some(l) && l.0 < 0) || (sender_filter matches Some(l)
                    && l.0 < 0)) && old(self).next_handle < u64::MAX) ==> (r matches Ok(h) && h.0
                    == old(self).next_handle && final(self).next_handle == old(self).next_handle
                    + 1 && final(self).handlers@ == old(self).handlers@.push(
                    HandlerEntry { handle: h.0, type_filter: tf, sender_filter: sf },
                ))
                &&& (!((type_filter matches Some(l) && l.0 < 0) || (sender_filter matches Some(l)
                    && l.0 < 0)) && old(self).next_handle == u64::MAX) ==> r == Err::<
                    HandlerHandle,
                    HandlerError,
                >(HandlerError::HandlersFull) && *final(self) == *old(self)
            }),
    {
        let tf: Option<IdType> = match type_filter {
            Some(l) => {
                if l.0 < 0 {
                    return Err(HandlerError::InvalidFilter);
                }
                Some(l.0)
            },
            None => None,
        };
        let sf: Option<IdType> = match sender_filter {
            Some(l) => {
                if l.0 < 0 {
                    return Err(HandlerError::InvalidFilter);
                }
                Some(l.0)
            },
            None => None,
        };
        if self.next_handle == u64::MAX {
            return Err(HandlerError::HandlersFull);
        }
        let handle = self.next_handle;
        self.handlers.push(HandlerEntry { handle, type_filter: tf, sender_filter: sf });
        self.next_handle = self.next_handle + 1;
        Ok(HandlerHandle(handle))
    }

    /// Unregister the handler named by `handle` (as a handler returning
    /// `RemoveThisHandler` asks).
    pub fn remove_handler(&mut self, handle: HandlerHandle) -> (r: Result<(), HandlerError>)
        requires
            old(self).well_formed(),
        ensures
            final(self).well_formed(),
            final(self).types == old(self).types,
            final(self).senders == old(self).senders,
            final(self).next_handle == old(self).next_handle,
            (exists|i: int|
                0 <= i < old(self).handlers@.len() && #[trigger] old(self).handlers@[i].handle
                    == handle.0) ==> (r == Ok::<(), HandlerError>(()) && exists|i: int|
                0 <= i < old(self).handlers@.len() && #[trigger] old(self).handlers@[i].handle
                    == handle.0 && final(self).handlers@ == old(self).handlers@.remove(i)),
            (forall|i: int|
                0 <= i < old(self).handlers@.len() ==> #[trigger] old(self).handlers@[i].handle
                    != handle.0) ==> r == Err::<(), HandlerError>(HandlerError::HandlerNotFound)
                && *final(self) == *old(self),
    {
        let mut i: usize = 0;
        while i < self.handlers.len()
            invariant
                *self == *old(self),
                old(self).well_formed(),
                i <= self.handlers@.len(),
                forall|j: int| 0 <= j < i ==> #[trigger] self.handlers@[j].handle != handle.0,
            decreases self.handlers@.len() - i,
        {
            if self.handlers[i].handle == handle.0 {
                self.handlers.remove(i);
                proof {
                    assert(self.handlers@ == old(self).handlers@.remove(i as int));
                }
                return Ok(());
            }
            i = i + 1;
        }
        Err(HandlerError::HandlerNotFound)
    }

    /// Collect the handles whose key is exactly `(tf, sf)`, in
    /// registration order.
    fn collect_matching(&self, tf: Option<IdType>, sf: Option<IdType>) -> (r: Vec<HandlerHandle>)
        ensures
            r@.map_values(|h: HandlerHandle| h.0) == matching_handles(self.handlers@, tf, sf),
    {
        let mut out: Vec<HandlerHandle> = Vec::new();
        let mut i: usize = 0;
        while i < self.handlers.len()
            invariant
                i <= self.handlers@.len(),
                out@.map_values(|h: HandlerHandle| h.0) == matching_handles(
                    self.handlers@.take(i as int),
                    tf,
                    sf,
                ),
            decreases self.handlers@.len() - i,
        {
            let e = self.handlers[i];
            let ghost prefix = self.handlers@.take(i as int);
            if filters_match(e.type_filter, tf) && filters_match(e.sender_filter, sf) {
                out.push(HandlerHandle(e.handle));
            }
            proof {
                assert(self.handlers@.take(i + 1).drop_last() =~= prefix);
                assert(self.handlers@.take(i + 1).last() == self.handlers@[i as int]);
                assert(out@.map_values(|h: HandlerHandle| h.0) =~= matching_handles(
                    self.handlers@.take(i + 1),
                    tf,
                    sf,
                ));
            }
            i = i + 1;
        }
        proof {
            assert(self.handlers@.take(self.handlers@.len() as int) =~= self.handlers@);
        }
        out
    }

    /// The handles to invoke for a message translated to local ids
    /// `(message_type, sender)`, in dispatch order: handlers with the
    /// concrete `(type, sender)` key first, then those wildcarded on one
    /// dimension, then the fully wildcarded ones; within each key, in
    /// registration order.
    pub fn handlers_for(&self, message_type: LocalId, sender: LocalId) -> (r: Vec<HandlerHandle>)
        ensures
            r@.map_values(|h: HandlerHandle| h.0) == spec_dispatch_order(
                self.handlers@,
                message_type.0,
                sender.0,
            ),
    {
        let mut out = self.collect_matching(Some(message_type.0), Some(sender.0));
        let mut b = self.collect_matching(Some(message_type.0), None);
        let mut c = self.collect_matching(None, Some(sender.0));
        let mut d = self.collect_matching(None, None);
        let ghost ga = out@;
        let ghost gb = b@;
        let ghost gc = c@;
        let ghost gd = d@;
        out.append(&mut b);
        out.append(&mut c);
        out.append(&mut d);
        proof {
            assert(out@ =~= ga + gb + gc + gd);
            assert(out@.map_values(|h: HandlerHandle| h.0) =~= spec_dispatch_order(
                self.handlers@,
                message_type.0,
                sender.0,
            ));
        }
        out
    }
}


/// Whether a registration key matches a message with local ids `(t, s)`:
/// each filter is the matching concrete id or the wildcard.
pub open spec fn key_matches(e: HandlerEntry, t: IdType, s: IdType) -> bool {
    (e.type_filter == Some(t) || e.type_filter is None) && (e.sender_filter == Some(s)
        || e.sender_filter is None)
}

/// `h1` is dispatched strictly before `h2` in `order`.
pub open spec fn comes_before(order: Seq<u64>, h1: u64, h2: u64) -> bool {
    exists|p: int, q: int|
        #![trigger order[p], order[q]]
        0 <= p < q < order.len() && order[p] == h1 && order[q] == h2
}

/// An entry whose key is exactly `(tf, sf)` contributes its handle to
/// `matching_handles`.
proof fn lemma_matching_contains(
    entries: Seq<HandlerEntry>,
    tf: Option<IdType>,
    sf: Option<IdType>,
    i: int,
)
    requires
        0 <= i < entries.len(),
        entries[i].type_filter == tf,
        entries[i].sender_filter == sf,
    ensures
        matching_handles(entries, tf, sf).contains(entries[i].handle),
    decreases entries.len(),
{
    let h = entries[i].handle;
    let m = matching_handles(entries, tf, sf);
    if i == entries.len() - 1 {
        assert(m[m.len() - 1] == h);
    } else {
        lemma_matching_contains(entries.drop_last(), tf, sf, i);
        let rest = matching_handles(entries.drop_last(), tf, sf);
        let k = choose|k: int| 0 <= k < rest.len() && rest[k] == h;
        assert(m[k] == h);
    }
}

/// The handles matched within a prefix of the registrations are a prefix
/// of the handles matched within all of them.
proof fn lemma_matching_prefix(
    entries: Seq<HandlerEntry>,
    tf: Option<IdType>,
    sf: Option<IdType>,
    k: int,
)
    requires
        0 <= k <= entries.len(),
    ensures
        matching_handles(entries.take(k), tf, sf).is_prefix_of(matching_handles(entries, tf, sf)),
    decreases entries.len() - k,
{
    let c = matching_handles(entries, tf, sf);
    if k == entries.len() {
        assert(entries.take(k) =~= entries);
        assert(c =~= c.subrange(0, c.len() as int));
    } else {
        lemma_matching_prefix(entries, tf, sf, k + 1);
        assert(entries.take(k + 1).drop_last() =~= entries.take(k));
        let a = matching_handles(entries.take(k), tf, sf);
        let b = matching_handles(entries.take(k + 1), tf, sf);
        assert(a =~= b.subrange(0, a.len() as int));
        assert(a =~= c.subrange(0, a.len() as int));
    }
}

/// Dispatch ordering, first half: a handler registered under the concrete
/// `(type, sender)` key of a message is dispatched before any handler that
/// matches the message through a wildcard.
pub proof fn lemma_dispatch_concrete_before_wildcard(
    entries: Seq<HandlerEntry>,
    t: IdType,
    s: IdType,
    i: int,
    j: int,
)
    requires
        0 <= i < entries.len(),
        0 <= j < entries.len(),
        entries[i].type_filter == Some(t),
        entries[i].sender_filter == Some(s),
        key_matches(entries[j], t, s),
        entries[j].type_filter is None || entries[j].sender_filter is None,
    ensures
        comes_before(spec_dispatch_order(entries, t, s), entries[i].handle, entries[j].handle),
{
    let order = spec_dispatch_order(entries, t, s);
    let a = matching_handles(entries, Some(t), Some(s));
    let b = matching_handles(entries, Some(t), None);
    let c = matching_handles(entries, None, Some(s));
    lemma_matching_contains(entries, Some(t), Some(s), i);
    let p = choose|p: int| 0 <= p < a.len() && a[p] == entries[i].handle;
    assert(order[p] == entries[i].handle);
    let tfj = entries[j].type_filter;
    let sfj = entries[j].sender_filter;
    lemma_matching_contains(entries, tfj, sfj, j);
    let m = matching_handles(entries, tfj, sfj);
    let k = choose|k: int| 0 <= k < m.len() && m[k] == entries[j].handle;
    let q = if tfj is Some && sfj is None {
        a.len() + k
    } else if tfj is None && sfj is Some {
        a.len() + b.len() + k
    } else {
        a.len() + b.len() + c.len() + k
    };
    assert(order[q] == entries[j].handle);
    assert(0 <= p < q < order.len());
}

/// Dispatch ordering, second half: two handlers registered under the same
/// matching key are dispatched in registration order.
pub proof fn lemma_dispatch_registration_order(
    entries: Seq<HandlerEntry>,
    t: IdType,
    s: IdType,
    i: int,
    j: int,
)
    requires
        0 <= i < j < entries.len(),
        entries[i].type_filter == entries[j].type_filter,
        entries[i].sender_filter == entries[j].sender_filter,
        key_matches(entries[i], t, s),
    ensures
        comes_before(spec_dispatch_order(entries, t, s), entries[i].handle, entries[j].handle),
{
    let order = spec_dispatch_order(entries, t, s);
    let tf = entries[i].type_filter;
    let sf = entries[i].sender_filter;
    let m = matching_handles(entries, tf, sf);
    let mi = matching_handles(entries.take(i + 1), tf, sf);
    let mid = matching_handles(entries.take(j), tf, sf);
    let mj = matching_handles(entries.take(j + 1), tf, sf);
    assert(entries.take(i + 1).drop_last() =~= entries.take(i));
    assert(entries.take(i + 1).last() == entries[i]);
    assert(mi == matching_handles(entries.take(i), tf, sf).push(entries[i].handle));
    assert(entries.take(j + 1).drop_last() =~= entries.take(j));
    assert(entries.take(j + 1).last() == entries[j]);
    assert(mj == mid.push(entries[j].handle));
    lemma_matching_prefix(entries, tf, sf, i + 1);
    lemma_matching_prefix(entries, tf, sf, j + 1);
    lemma_matching_prefix(entries.take(j), tf, sf, i + 1);
    assert(entries.take(j).take(i + 1) =~= entries.take(i + 1));
    let p0 = mi.len() - 1;
    let q0 = mj.len() - 1;
    assert(mi[p0] == entries[i].handle);
    assert(mj[q0] == entries[j].handle);
    assert(m[p0] == entries[i].handle);
    assert(m[q0] == entries[j].handle);
    assert(mi.len() <= mid.len());
    assert(q0 == mid.len());
    assert(0 <= p0 < q0);
    let a = matching_handles(entries, Some(t), Some(s));
    let b = matching_handles(entries, Some(t), None);
    let c = matching_handles(entries, None, Some(s));
    if tf is Some && sf is Some {
        assert(order[p0] == m[p0] && order[q0] == m[q0]);
        assert(0 <= p0 < q0 < order.len());
    } else if tf is Some && sf is None {
        let p = a.len() + p0;
        let q = a.len() + q0;
        assert(order[p] == m[p0] && order[q] == m[q0]);
        assert(0 <= p < q < order.len());
    } else if tf is None && sf is Some {
        let p = a.len() + b.len() + p0;
        let q = a.len() + b.len() + q0;
        assert(order[p] == m[p0] && order[q] == m[q0]);
        assert(0 <= p < q < order.len());
    } else {
        let p = a.len() + b.len() + c.len() + p0;
        let q = a.len() + b.len() + c.len() + q0;
        assert(order[p] == m[p0] && order[q] == m[q0]);
        assert(0 <= p < q < order.len());
    }
}

} // verus!
