//! The responders that a browser knows of, each with the number of
//! questions it has left unanswered.

use crate::dns::{InboundMessage, InboundView};
use crate::net::SocketAddr;
use std::sync::Arc;
use vstd::prelude::*;

verus! {

/// A responder as mathematical values.
pub struct ResponderView {
    /// The address that the response came from.
    pub addr: SocketAddr,
    /// What was read in the last response.
    pub last_response: InboundView,
    /// The bytes of the last response.
    pub packet: Seq<u8>,
    /// When the last response arrived, on the caller's clock.
    pub last_responded: u64,
}

/// A responder that answered a question: a peer on the network, known by
/// the address its response came from.
#[derive(Debug)]
pub struct Responder {
    /// The address that the response came from.
    pub addr: SocketAddr,
    /// What was read in the last response.
    pub last_response: InboundMessage,
    /// The bytes of the last response, for whoever wants to read more in
    /// them.
    pub packet: Vec<u8>,
    /// When the last response arrived, on the caller's monotonic clock.
    pub last_responded: u64,
}

impl View for Responder {
    type V = ResponderView;

    open spec fn view(&self) -> ResponderView {
        ResponderView {
            addr: self.addr,
            last_response: self.last_response@,
            packet: self.packet@,
            last_responded: self.last_responded,
        }
    }
}

/// Hands out one more owner of a responder with `Arc::clone`, which makes a
/// pointer to the same value.
#[verifier::external_body]
pub(crate) fn share(responder: &Arc<Responder>) -> (r: Arc<Responder>)
    ensures
        r == *responder,
{
    Arc::clone(responder)
}

/// An entry of the presence table as mathematical values.
pub struct EntryView {
    /// The responder.
    pub responder: ResponderView,
    /// The number of sweeps since its last response.
    pub ignored_packets: u8,
}

/// An entry of the presence table.
#[derive(Debug)]
pub struct ResponderMemoryEntry {
    /// The responder, shared with the events that told of it.
    pub inner: Arc<Responder>,
    /// The number of sweeps since its last response.
    pub ignored_packets: u8,
}

impl View for ResponderMemoryEntry {
    type V = EntryView;

    open spec fn view(&self) -> EntryView {
        EntryView { responder: self.inner@, ignored_packets: self.ignored_packets }
    }
}

/// The entries of a list as mathematical values.
pub open spec fn spec_entry_views(entries: Seq<ResponderMemoryEntry>) -> Seq<EntryView> {
    Seq::new(entries.len(), |i: int| entries[i]@)
}

/// The responders of a list as mathematical values.
pub open spec fn spec_responder_views(responders: Seq<Arc<Responder>>) -> Seq<ResponderView> {
    Seq::new(responders.len(), |i: int| responders[i]@)
}

/// Whether no address occurs twice among the entries.
pub open spec fn spec_distinct(entries: Seq<EntryView>) -> bool {
    forall|i: int, j: int|
        0 <= i < j < entries.len() ==> (#[trigger] entries[i]).responder.addr != (
        #[trigger] entries[j]).responder.addr
}

/// Whether there is an entry for an address.
pub open spec fn spec_present(entries: Seq<EntryView>, addr: SocketAddr) -> bool {
    exists|i: int| 0 <= i < entries.len() && (#[trigger] entries[i]).responder.addr == addr
}

/// The table after a response: the entry of the responder's address holds
/// the responder and counts from zero again. It stands where the address
/// stood before, or at the end if the address is new.
pub open spec fn spec_replaced(
    before: Seq<EntryView>,
    responder: ResponderView,
    after: Seq<EntryView>,
) -> bool {
    let entry = EntryView { responder, ignored_packets: 0 };
    &&& forall|i: int|
        0 <= i < before.len() && (#[trigger] before[i]).responder.addr == responder.addr
            ==> after == before.update(i, entry)
    &&& !spec_present(before, responder.addr) ==> after == before.push(entry)
}

/// The entries that a sweep keeps: those that have left fewer than `max`
/// sweeps unanswered, each counted one sweep further, in their order.
pub open spec fn spec_swept(entries: Seq<EntryView>, max: u8) -> Seq<EntryView>
    decreases entries.len(),
{
    if entries.len() == 0 {
        Seq::empty()
    } else {
        let front = spec_swept(entries.drop_last(), max);
        let last = entries.last();
        if last.ignored_packets < max {
            front.push(
                EntryView {
                    responder: last.responder,
                    ignored_packets: (last.ignored_packets + 1) as u8,
                },
            )
        } else {
            front
        }
    }
}

/// The responders that a sweep gives up: those that have left `max` sweeps
/// or more unanswered, in their order.
pub open spec fn spec_lost(entries: Seq<EntryView>, max: u8) -> Seq<ResponderView>
    decreases entries.len(),
{
    if entries.len() == 0 {
        Seq::empty()
    } else {
        let front = spec_lost(entries.drop_last(), max);
        let last = entries.last();
        if last.ignored_packets < max {
            front
        } else {
            front.push(last.responder)
        }
    }
}

/// The presence table: the responders that a browser knows of, one for
/// each address.
#[derive(Debug)]
pub struct ResponderMemory {
    entries: Vec<ResponderMemoryEntry>,
}

impl View for ResponderMemory {
    type V = Seq<EntryView>;

    closed spec fn view(&self) -> Seq<EntryView> {
        spec_entry_views(self.entries@)
    }
}

impl ResponderMemory {
    /// Whether no address has two entries.
    pub open spec fn wf(&self) -> bool {
        spec_distinct(self@)
    }

    /// A table without entries.
    pub fn new() -> (r: Self)
        ensures
            r.wf(),
            r@.len() == 0,
    {
        ResponderMemory { entries: Vec::new() }
    }

    /// The number of responders in the table.
    pub fn len(&self) -> (r: usize)
        ensures
            r == self@.len(),
    {
        self.entries.len()
    }

    /// The entries, in order.
    pub fn entries(&self) -> (r: &Vec<ResponderMemoryEntry>)
        ensures
            spec_entry_views(r@) == self@,
    {
        &self.entries
    }

    /// Where the entry of an address stands, if there is one.
    fn position(&self, addr: &SocketAddr) -> (r: Option<usize>)
        ensures
            match r {
                Some(i) => i < self@.len() && self@[i as int].responder.addr == *addr,
                None => !spec_present(self@, *addr),
            },
    {
        let mut i: usize = 0;
        while i < self.entries.len()
            invariant
                0 <= i <= self.entries@.len(),
                forall|k: int| 0 <= k < i ==> (#[trigger] self@[k]).responder.addr != *addr,
            decreases self.entries@.len() - i,
        {
            if self.entries[i].inner.addr == *addr {
                return Some(i);
            }
            i += 1;
        }
        None
    }

    /// The entry of an address, if there is one.
    pub fn get(&self, addr: &SocketAddr) -> (r: Option<&ResponderMemoryEntry>)
        ensures
            match r {
                Some(entry) => self@.contains(entry@) && entry@.responder.addr == *addr,
                None => !spec_present(self@, *addr),
            },
    {
        match self.position(addr) {
            Some(i) => {
                assert(self@[i as int] == self.entries@[i as int]@);
                Some(&self.entries[i])
            },
            None => None,
        }
    }

    /// Puts a responder into the table, in place of the entry of its
    /// address if there is one, and starts its count anew.
    pub fn replace(&mut self, entry: Arc<Responder>)
        requires
            old(self).wf(),
        ensures
            final(self).wf(),
            spec_replaced(old(self)@, entry@, final(self)@),
            spec_present(final(self)@, entry@.addr),
    {
        let ghost before = self@;
        let ghost added = EntryView { responder: entry@, ignored_packets: 0 };
        let addr = entry.addr;
        match self.position(&addr) {
            Some(i) => {
                self.entries.set(i, ResponderMemoryEntry { inner: entry, ignored_packets: 0 });
                proof {
                    let after = self@;
                    assert(after =~= before.update(i as int, added));
                    assert(after[i as int].responder.addr == addr);
                    assert forall|k: int|
                        0 <= k < before.len() && (#[trigger] before[k]).responder.addr
                            == addr implies after == before.update(k, added) by {
                        assert(k == i);
                    }
                    assert(spec_present(before, addr));
                }
            },
            None => {
                self.entries.push(ResponderMemoryEntry { inner: entry, ignored_packets: 0 });
                proof {
                    let after = self@;
                    assert(after =~= before.push(added));
                    assert(after[before.len() as int].responder.addr == addr);
                }
            },
        }
    }

    /// Counts one more unanswered question for every responder, and takes
    /// out those that had left `max_ignored_packets` unanswered already.
    /// They are handed back: each of them is lost.
    pub fn sweep(&mut self, max_ignored_packets: u8) -> (lost: Vec<Arc<Responder>>)
        requires
            old(self).wf(),
        ensures
            final(self).wf(),
            final(self)@ == spec_swept(old(self)@, max_ignored_packets),
            spec_responder_views(lost@) == spec_lost(old(self)@, max_ignored_packets),
            lost@.len() == spec_lost(old(self)@, max_ignored_packets).len(),
    {
        let ghost before = self@;
        let mut kept: Vec<ResponderMemoryEntry> = Vec::new();
        let mut lost: Vec<Arc<Responder>> = Vec::new();
        let mut i: usize = 0;
        while i < self.entries.len()
            invariant
                0 <= i <= self.entries@.len(),
                self@ == before,
                spec_entry_views(kept@) == spec_swept(
                    before.subrange(0, i as int),
                    max_ignored_packets,
                ),
                spec_responder_views(lost@) == spec_lost(
                    before.subrange(0, i as int),
                    max_ignored_packets,
                ),
            decreases self.entries@.len() - i,
        {
            proof {
                assert(before.subrange(0, i + 1).drop_last() =~= before.subrange(0, i as int));
                assert(before.subrange(0, i + 1).last() == self.entries@[i as int]@);
            }
            let ghost kept_before = spec_entry_views(kept@);
            let ghost lost_before = spec_responder_views(lost@);
            let ignored_packets = self.entries[i].ignored_packets;
            let inner = share(&self.entries[i].inner);
            if ignored_packets < max_ignored_packets {
                kept.push(ResponderMemoryEntry { inner, ignored_packets: ignored_packets + 1 });
                assert(spec_entry_views(kept@) =~= kept_before.push(
                    EntryView {
                        responder: before[i as int].responder,
                        ignored_packets: (ignored_packets + 1) as u8,
                    },
                ));
            } else {
                lost.push(inner);
                assert(spec_responder_views(lost@) =~= lost_before.push(
                    before[i as int].responder,
                ));
            }
            i += 1;
        }
        assert(before.subrange(0, i as int) =~= before);
        proof {
            lemma_swept_distinct(before, max_ignored_packets);
        }
        self.entries = kept;
        lost
    }
}

/// Every entry that a sweep keeps stems from an entry of the same address
/// that stood at the same place or later.
pub proof fn lemma_swept_origin(entries: Seq<EntryView>, max: u8, k: int)
    requires
        0 <= k < spec_swept(entries, max).len(),
    ensures
        exists|i: int|
            k <= i < entries.len() && (#[trigger] entries[i]).responder == spec_swept(
                entries,
                max,
            )[k].responder && entries[i].ignored_packets < max && spec_swept(
                entries,
                max,
            )[k].ignored_packets == entries[i].ignored_packets + 1,
        spec_swept(entries, max).len() <= entries.len(),
    decreases entries.len(),
{
    let front = entries.drop_last();
    if entries.len() > 0 {
        if k < spec_swept(front, max).len() {
            lemma_swept_origin(front, max, k);
            let i = choose|i: int|
                k <= i < front.len() && (#[trigger] front[i]).responder == spec_swept(
                    front,
                    max,
                )[k].responder && front[i].ignored_packets < max && spec_swept(
                    front,
                    max,
                )[k].ignored_packets == front[i].ignored_packets + 1;
            assert(entries[i] == front[i]);
        } else {
            lemma_swept_len(front, max);
            assert(entries[entries.len() - 1] == entries.last());
        }
    }
    lemma_swept_len(entries, max);
}

/// A sweep keeps no more entries than there are.
pub proof fn lemma_swept_len(entries: Seq<EntryView>, max: u8)
    ensures
        spec_swept(entries, max).len() <= entries.len(),
        spec_lost(entries, max).len() + spec_swept(entries, max).len() == entries.len(),
    decreases entries.len(),
{
    if entries.len() > 0 {
        lemma_swept_len(entries.drop_last(), max);
    }
}

/// A sweep leaves a table in which no address has two entries.
pub proof fn lemma_swept_distinct(entries: Seq<EntryView>, max: u8)
    requires
        spec_distinct(entries),
    ensures
        spec_distinct(spec_swept(entries, max)),
    decreases entries.len(),
{
    if entries.len() > 0 {
        let front = entries.drop_last();
        let last = entries.last();
        assert forall|i: int, j: int| 0 <= i < j < front.len() implies (#[trigger] front[i]).responder.addr
            != (#[trigger] front[j]).responder.addr by {
            assert(front[i] == entries[i] && front[j] == entries[j]);
        }
        lemma_swept_distinct(front, max);
        let swept = spec_swept(entries, max);
        let swept_front = spec_swept(front, max);
        if last.ignored_packets < max {
            assert forall|i: int, j: int| 0 <= i < j < swept.len() implies (#[trigger] swept[i]).responder.addr
                != (#[trigger] swept[j]).responder.addr by {
                if j == swept.len() - 1 {
                    lemma_swept_origin(front, max, i);
                    let o = choose|o: int|
                        i <= o < front.len() && (#[trigger] front[o]).responder == swept_front[i].responder
                            && front[o].ignored_packets < max && swept_front[i].ignored_packets
                            == front[o].ignored_packets + 1;
                    assert(entries[o] == front[o]);
                    assert(entries[entries.len() - 1] == last);
                } else {
                    assert(swept[i] == swept_front[i] && swept[j] == swept_front[j]);
                }
            }
        }
    }
}

} // verus!
