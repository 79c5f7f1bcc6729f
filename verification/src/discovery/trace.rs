//! What holds of a browser over time: how the count of a silent responder
//! grows until it is lost, and in what order a user hears of a responder.

use super::event::EventView;
use super::presence::{
    lemma_swept_distinct, spec_distinct, spec_lost, spec_present, spec_replaced, spec_swept,
    EntryView, ResponderView,
};
use super::{spec_lost_events, spec_response_event};
use crate::net::SocketAddr;
use vstd::prelude::*;

verus! {

/// The entry that a table holds for an address.
pub open spec fn spec_entry(entries: Seq<EntryView>, addr: SocketAddr) -> Option<EntryView> {
    if spec_present(entries, addr) {
        Some(
            entries[choose|i: int|
                0 <= i < entries.len() && (#[trigger] entries[i]).responder.addr == addr],
        )
    } else {
        None
    }
}

/// In a table in which no address has two entries, the entry of an address
/// is the one that stands there with that address.
pub proof fn lemma_entry_unique(entries: Seq<EntryView>, i: int)
    requires
        spec_distinct(entries),
        0 <= i < entries.len(),
    ensures
        spec_entry(entries, entries[i].responder.addr) == Some(entries[i]),
{
    let addr = entries[i].responder.addr;
    assert(spec_present(entries, addr));
    let k = choose|k: int| 0 <= k < entries.len() && (#[trigger] entries[k]).responder.addr == addr;
    assert(k == i);
}

/// How many of the responders have an address.
pub open spec fn spec_count(responders: Seq<ResponderView>, addr: SocketAddr) -> nat
    decreases responders.len(),
{
    if responders.len() == 0 {
        0
    } else {
        spec_count(responders.drop_last(), addr) + if responders.last().addr == addr {
            1nat
        } else {
            0nat
        }
    }
}

/// A table in which no address has two entries stays such a table without
/// its last entry, and the address of that entry is not among the others.
pub proof fn lemma_distinct_front(entries: Seq<EntryView>)
    requires
        spec_distinct(entries),
        entries.len() > 0,
    ensures
        spec_distinct(entries.drop_last()),
        !spec_present(entries.drop_last(), entries.last().responder.addr),
{
    let front = entries.drop_last();
    assert forall|i: int, j: int| 0 <= i < j < front.len() implies (#[trigger] front[i]).responder.addr
        != (#[trigger] front[j]).responder.addr by {
        assert(front[i] == entries[i] && front[j] == entries[j]);
    }
    if spec_present(front, entries.last().responder.addr) {
        let k = choose|k: int|
            0 <= k < front.len() && (#[trigger] front[k]).responder.addr
                == entries.last().responder.addr;
        assert(front[k] == entries[k]);
        assert(entries[entries.len() - 1] == entries.last());
    }
}

/// What one sweep does to the entry of an address: one that has left fewer
/// than `max` sweeps unanswered stays and counts one more; one that has
/// left `max` or more is taken out and handed back as lost, once; and an
/// address without an entry stays without one.
pub proof fn lemma_sweep_entry(entries: Seq<EntryView>, max: u8, addr: SocketAddr)
    requires
        spec_distinct(entries),
    ensures
        spec_distinct(spec_swept(entries, max)),
        match spec_entry(entries, addr) {
            Some(entry) => if entry.ignored_packets < max {
                &&& spec_entry(spec_swept(entries, max), addr) == Some(
                    EntryView {
                        responder: entry.responder,
                        ignored_packets: (entry.ignored_packets + 1) as u8,
                    },
                )
                &&& spec_count(spec_lost(entries, max), addr) == 0
            } else {
                &&& spec_entry(spec_swept(entries, max), addr) is None
                &&& spec_count(spec_lost(entries, max), addr) == 1
                &&& spec_lost(entries, max).contains(entry.responder)
            },
            None => {
                &&& spec_entry(spec_swept(entries, max), addr) is None
                &&& spec_count(spec_lost(entries, max), addr) == 0
            },
        },
    decreases entries.len(),
{
    lemma_swept_distinct(entries, max);
    if entries.len() > 0 {
        let front = entries.drop_last();
        let last = entries.last();
        lemma_distinct_front(entries);
        lemma_sweep_entry(front, max, addr);
        lemma_swept_distinct(front, max);
        let swept = spec_swept(entries, max);
        let swept_front = spec_swept(front, max);
        let lost = spec_lost(entries, max);
        let lost_front = spec_lost(front, max);
        assert(entries[entries.len() - 1] == last);
        if last.responder.addr == addr {
            lemma_entry_unique(entries, entries.len() - 1);
            assert(spec_entry(front, addr) is None);
            if last.ignored_packets < max {
                let kept = EntryView {
                    responder: last.responder,
                    ignored_packets: (last.ignored_packets + 1) as u8,
                };
                assert(swept == swept_front.push(kept));
                assert(swept[swept.len() - 1] == kept);
                lemma_entry_unique(swept, swept.len() - 1);
                assert(lost == lost_front);
            } else {
                assert(swept == swept_front);
                assert(lost == lost_front.push(last.responder));
                assert(lost.drop_last() =~= lost_front);
                assert(lost[lost.len() - 1] == last.responder);
            }
        } else {
            // The entry of the address, if there is one, stands in the front.
            if spec_present(entries, addr) {
                let k = choose|k: int|
                    0 <= k < entries.len() && (#[trigger] entries[k]).responder.addr == addr;
                assert(k < front.len());
                assert(front[k] == entries[k]);
                lemma_entry_unique(front, k);
                lemma_entry_unique(entries, k);
            } else {
                if spec_present(front, addr) {
                    let k = choose|k: int|
                        0 <= k < front.len() && (#[trigger] front[k]).responder.addr == addr;
                    assert(entries[k] == front[k]);
                }
            }
            assert(spec_entry(entries, addr) == spec_entry(front, addr));
            if last.ignored_packets < max {
                let kept = EntryView {
                    responder: last.responder,
                    ignored_packets: (last.ignored_packets + 1) as u8,
                };
                assert(swept == swept_front.push(kept));
                assert(lost == lost_front);
                lemma_entry_push_other(swept_front, kept, addr);
            } else {
                assert(swept == swept_front);
                assert(lost == lost_front.push(last.responder));
                assert(lost.drop_last() =~= lost_front);
                if spec_entry(front, addr) is Some {
                    let entry = spec_entry(front, addr).unwrap();
                    if entry.ignored_packets >= max {
                        let k = choose|k: int|
                            0 <= k < lost_front.len() && lost_front[k] == entry.responder;
                        assert(lost[k] == entry.responder);
                    }
                }
            }
        }
    }
}

/// An entry of another address at the end of a table changes nothing for
/// an address.
pub proof fn lemma_entry_push_other(entries: Seq<EntryView>, added: EntryView, addr: SocketAddr)
    requires
        spec_distinct(entries.push(added)),
        added.responder.addr != addr,
    ensures
        spec_entry(entries.push(added), addr) == spec_entry(entries, addr),
{
    let pushed = entries.push(added);
    lemma_distinct_front(pushed);
    assert(pushed.drop_last() =~= entries);
    if spec_present(entries, addr) {
        let k = choose|k: int| 0 <= k < entries.len() && (#[trigger] entries[k]).responder.addr == addr;
        assert(pushed[k] == entries[k]);
        lemma_entry_unique(pushed, k);
        lemma_entry_unique(entries, k);
    } else if spec_present(pushed, addr) {
        let k = choose|k: int| 0 <= k < pushed.len() && (#[trigger] pushed[k]).responder.addr == addr;
        assert(k < entries.len());
        assert(entries[k] == pushed[k]);
    }
}

/// The table after `k` sweeps in a row.
pub open spec fn spec_sweeps(entries: Seq<EntryView>, max: u8, k: nat) -> Seq<EntryView>
    decreases k,
{
    if k == 0 {
        entries
    } else {
        spec_swept(spec_sweeps(entries, max, (k - 1) as nat), max)
    }
}

/// How often an address was handed back as lost by the first `k` of a row
/// of sweeps.
pub open spec fn spec_lost_in(entries: Seq<EntryView>, max: u8, k: nat, addr: SocketAddr) -> nat
    decreases k,
{
    if k == 0 {
        0
    } else {
        spec_lost_in(entries, max, (k - 1) as nat, addr) + spec_count(
            spec_lost(spec_sweeps(entries, max, (k - 1) as nat), max),
            addr,
        )
    }
}

/// A responder that has just answered and then stays silent counts one
/// more with every sweep: after `k` sweeps, `k` being at most the limit,
/// its entry is in the table with the count `k` and it was never handed
/// back as lost. The sweep after that takes it out: after more sweeps than
/// the limit it has no entry, and it was handed back as lost exactly once.
pub proof fn lemma_missed_ticks(entries: Seq<EntryView>, max: u8, responder: ResponderView, k: nat)
    requires
        spec_distinct(entries),
        spec_entry(entries, responder.addr) == Some(EntryView { responder, ignored_packets: 0 }),
    ensures
        spec_distinct(spec_sweeps(entries, max, k)),
        k <= max ==> spec_entry(spec_sweeps(entries, max, k), responder.addr) == Some(
            EntryView { responder, ignored_packets: k as u8 },
        ) && spec_lost_in(entries, max, k, responder.addr) == 0,
        k > max ==> spec_entry(spec_sweeps(entries, max, k), responder.addr) is None
            && spec_lost_in(entries, max, k, responder.addr) == 1,
    decreases k,
{
    if k > 0 {
        let before = (k - 1) as nat;
        lemma_missed_ticks(entries, max, responder, before);
        lemma_sweep_entry(spec_sweeps(entries, max, before), max, responder.addr);
    }
}

/// The table after a response: the entry of the responder's address is
/// replaced where it stands, or a new entry is put at the end.
pub open spec fn spec_put(entries: Seq<EntryView>, responder: ResponderView) -> Seq<EntryView> {
    let entry = EntryView { responder, ignored_packets: 0 };
    if spec_present(entries, responder.addr) {
        entries.update(
            choose|i: int|
                0 <= i < entries.len() && (#[trigger] entries[i]).responder.addr == responder.addr,
            entry,
        )
    } else {
        entries.push(entry)
    }
}

/// The event that a response brings about.
pub open spec fn spec_event_of(entries: Seq<EntryView>, responder: ResponderView) -> EventView {
    match spec_entry(entries, responder.addr) {
        Some(entry) => EventView::ResponseUpdate { old: entry.responder, new: responder },
        None => EventView::ResponderFound(responder),
    }
}

/// What the browser's table and event are after a response is what
/// `spec_put` and `spec_event_of` say.
pub proof fn lemma_response_step(
    before: Seq<EntryView>,
    responder: ResponderView,
    after: Seq<EntryView>,
    event: EventView,
)
    requires
        spec_distinct(before),
        spec_replaced(before, responder, after),
        spec_response_event(before, responder, event),
    ensures
        after == spec_put(before, responder),
        event == spec_event_of(before, responder),
{
    if spec_present(before, responder.addr) {
        let i = choose|i: int|
            0 <= i < before.len() && (#[trigger] before[i]).responder.addr == responder.addr;
        assert(before[i].responder.addr == responder.addr);
    }
}

/// What a response does to the entries: the responder's address has the
/// new entry, every other address keeps its own, and still no address has
/// two.
pub proof fn lemma_put_entry(entries: Seq<EntryView>, responder: ResponderView, addr: SocketAddr)
    requires
        spec_distinct(entries),
    ensures
        spec_distinct(spec_put(entries, responder)),
        spec_entry(spec_put(entries, responder), addr) == if addr == responder.addr {
            Some(EntryView { responder, ignored_packets: 0 })
        } else {
            spec_entry(entries, addr)
        },
{
    let entry = EntryView { responder, ignored_packets: 0 };
    let after = spec_put(entries, responder);
    if spec_present(entries, responder.addr) {
        let i = choose|i: int|
            0 <= i < entries.len() && (#[trigger] entries[i]).responder.addr == responder.addr;
        assert(after == entries.update(i, entry));
        assert forall|x: int, y: int| 0 <= x < y < after.len() implies (#[trigger] after[x]).responder.addr
            != (#[trigger] after[y]).responder.addr by {
            assert(after[x].responder.addr == entries[x].responder.addr);
            assert(after[y].responder.addr == entries[y].responder.addr);
        }
        if addr == responder.addr {
            assert(after[i] == entry);
            lemma_entry_unique(after, i);
        } else {
            if spec_present(entries, addr) {
                let k = choose|k: int|
                    0 <= k < entries.len() && (#[trigger] entries[k]).responder.addr == addr;
                assert(after[k] == entries[k]);
                lemma_entry_unique(after, k);
                lemma_entry_unique(entries, k);
            } else if spec_present(after, addr) {
                let k = choose|k: int|
                    0 <= k < after.len() && (#[trigger] after[k]).responder.addr == addr;
                assert(entries[k].responder.addr == addr);
            }
        }
    } else {
        assert(after == entries.push(entry));
        assert forall|x: int, y: int| 0 <= x < y < after.len() implies (#[trigger] after[x]).responder.addr
            != (#[trigger] after[y]).responder.addr by {
            assert(after[x] == entries[x]);
            if y < entries.len() {
                assert(after[y] == entries[y]);
            }
        }
        if addr == responder.addr {
            assert(after[after.len() - 1] == entry);
            lemma_entry_unique(after, after.len() - 1);
        } else {
            lemma_entry_push_other(entries, entry, addr);
        }
    }
}

/// What happens to a browser's table: a response arrives, or the wait for
/// answers ends and the table is swept.
pub enum StepView {
    /// A response that the browser takes makes this responder known.
    Response(ResponderView),
    /// The table is swept with this limit.
    Sweep(u8),
}

/// The table after a step.
pub open spec fn spec_step_table(entries: Seq<EntryView>, step: StepView) -> Seq<EntryView> {
    match step {
        StepView::Response(responder) => spec_put(entries, responder),
        StepView::Sweep(max) => spec_swept(entries, max),
    }
}

/// The events that a step tells the user, in order.
pub open spec fn spec_step_events(entries: Seq<EntryView>, step: StepView) -> Seq<EventView> {
    match step {
        StepView::Response(responder) => seq![spec_event_of(entries, responder)],
        StepView::Sweep(max) => spec_lost_events(spec_lost(entries, max)),
    }
}

/// The table after a row of steps.
pub open spec fn spec_run_table(entries: Seq<EntryView>, steps: Seq<StepView>) -> Seq<EntryView>
    decreases steps.len(),
{
    if steps.len() == 0 {
        entries
    } else {
        spec_step_table(spec_run_table(entries, steps.drop_last()), steps.last())
    }
}

/// The events that a row of steps tells the user, in order.
pub open spec fn spec_run_events(entries: Seq<EntryView>, steps: Seq<StepView>) -> Seq<EventView>
    decreases steps.len(),
{
    if steps.len() == 0 {
        Seq::empty()
    } else {
        spec_run_events(entries, steps.drop_last()) + spec_step_events(
            spec_run_table(entries, steps.drop_last()),
            steps.last(),
        )
    }
}

/// Whether a user who knows of an address or not (`known`) can hear the
/// events in this order, and whether the user knows of the address
/// afterwards. A responder is found only at an address that is not known,
/// updated and lost only at one that is; events of other addresses do not
/// matter. `None` says that the order cannot be.
pub open spec fn spec_follow(events: Seq<EventView>, addr: SocketAddr, known: bool) -> Option<bool>
    decreases events.len(),
{
    if events.len() == 0 {
        Some(known)
    } else {
        match spec_follow(events.drop_last(), addr, known) {
            None => None,
            Some(now) => if events.last().addr() != addr {
                Some(now)
            } else {
                match events.last() {
                    EventView::ResponderFound(_) => if now {
                        None
                    } else {
                        Some(true)
                    },
                    EventView::ResponseUpdate { old, new } => if now {
                        Some(true)
                    } else {
                        None
                    },
                    EventView::ResponderLost(_) => if now {
                        Some(false)
                    } else {
                        None
                    },
                }
            },
        }
    }
}

/// Hearing one row of events after another is hearing the two in a row.
pub proof fn lemma_follow_concat(
    first: Seq<EventView>,
    second: Seq<EventView>,
    addr: SocketAddr,
    known: bool,
)
    ensures
        spec_follow(first + second, addr, known) == match spec_follow(first, addr, known) {
            Some(now) => spec_follow(second, addr, now),
            None => None,
        },
    decreases second.len(),
{
    if second.len() == 0 {
        assert(first + second =~= first);
    } else {
        lemma_follow_concat(first, second.drop_last(), addr, known);
        assert((first + second).drop_last() =~= first + second.drop_last());
        assert((first + second).last() == second.last());
    }
}

/// Hearing of the loss of some responders, of which at most one has the
/// address and only if the address is known: afterwards the address is not
/// known if one of them had it, else as before.
pub proof fn lemma_follow_lost(lost: Seq<ResponderView>, addr: SocketAddr, known: bool)
    requires
        spec_count(lost, addr) <= 1,
        spec_count(lost, addr) == 1 ==> known,
    ensures
        spec_follow(spec_lost_events(lost), addr, known) == Some(
            if spec_count(lost, addr) == 1 {
                false
            } else {
                known
            },
        ),
    decreases lost.len(),
{
    let events = spec_lost_events(lost);
    if lost.len() > 0 {
        lemma_follow_lost(lost.drop_last(), addr, known);
        assert(events.drop_last() =~= spec_lost_events(lost.drop_last()));
        assert(events.last() == EventView::ResponderLost(lost.last()));
    }
}

/// The order in which a user hears of an address, whatever happens: the
/// events of the address follow one another as `spec_follow` allows,
/// starting from whether the table holds the address, and afterwards the
/// user knows of the address if and only if the table holds it. So a
/// responder is found before it is updated or lost, it is not found again
/// before it is lost, and after its loss nothing is heard of it until it is
/// found again.
pub proof fn lemma_event_order(entries: Seq<EntryView>, steps: Seq<StepView>, addr: SocketAddr)
    requires
        spec_distinct(entries),
    ensures
        spec_distinct(spec_run_table(entries, steps)),
        spec_follow(
            spec_run_events(entries, steps),
            addr,
            spec_entry(entries, addr) is Some,
        ) == Some(spec_entry(spec_run_table(entries, steps), addr) is Some),
    decreases steps.len(),
{
    if steps.len() > 0 {
        let front = steps.drop_last();
        lemma_event_order(entries, front, addr);
        let table = spec_run_table(entries, front);
        let heard = spec_run_events(entries, front);
        let known = spec_entry(entries, addr) is Some;
        let now = spec_entry(table, addr) is Some;
        lemma_follow_concat(heard, spec_step_events(table, steps.last()), addr, known);
        match steps.last() {
            StepView::Response(responder) => {
                lemma_put_entry(table, responder, addr);
                let event = spec_event_of(table, responder);
                let one = seq![event];
                assert(one.drop_last() =~= Seq::<EventView>::empty());
                assert(one.last() == event);
                assert(spec_follow(one.drop_last(), addr, now) == Some(now));
                assert(event.addr() == responder.addr);
            },
            StepView::Sweep(max) => {
                lemma_sweep_entry(table, max, addr);
                lemma_follow_lost(spec_lost(table, max), addr, now);
            },
        }
    }
}

/// A response from an address that the table does not hold tells of the
/// finding of the responder and of nothing else, and gives the address an
/// entry that counts from zero.
pub proof fn lemma_found_first(entries: Seq<EntryView>, responder: ResponderView)
    requires
        spec_distinct(entries),
        spec_entry(entries, responder.addr) is None,
    ensures
        spec_step_events(entries, StepView::Response(responder)) == seq![
            EventView::ResponderFound(responder),
        ],
        spec_entry(spec_step_table(entries, StepView::Response(responder)), responder.addr)
            == Some(EntryView { responder, ignored_packets: 0 }),
{
    lemma_put_entry(entries, responder, responder.addr);
}

} // verus!
