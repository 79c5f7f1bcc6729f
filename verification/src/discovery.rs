//! The browser: the questions it asks and the responders it keeps track of.

pub mod builder;
pub mod errors;
pub mod event;
pub mod presence;
pub mod trace;

pub use builder::DiscoveryBuilder;
pub use event::DiscoveryEvent;
pub use presence::Responder;

use crate::bytes::{bytes_eq, copy};
use crate::dns::{
    encode_query, spec_encode_query, spec_read_packet, InboundMessage, InboundView, RecordKind,
    MessageKind,
};
use crate::errors::{IoError, IoErrorKind};
use crate::name::{DnsName, DnsNameView};
use crate::net::SocketAddr;
use event::{spec_event_views, EventView};
use crate::socket::SocketSettings;
use presence::{
    share, spec_distinct, spec_lost, spec_present, spec_replaced, spec_responder_views,
    spec_swept, EntryView, ResponderMemory, ResponderView,
};
use std::sync::Arc;
use std::time::Duration;
use vstd::prelude::*;

verus! {

/// How long a browser waits for answers after a question before it counts
/// the question as unanswered, in milliseconds.
pub const GRACE_WINDOW_MILLIS: u64 = 2000;

/// The name that a browser asks about, as mathematical values.
pub open spec fn spec_name_view(name: Option<&DnsName>) -> Option<DnsNameView> {
    match name {
        Some(n) => Some(n@),
        None => None,
    }
}

/// The question that a browser sends: for the PTR records of the service
/// name, or of the empty name where it has none.
pub fn discovery_packet(unicast: bool, service_name: Option<&DnsName>) -> (r: Result<
    Vec<u8>,
    IoError,
>)
    ensures
        match r {
            Ok(bytes) => spec_encode_query(spec_name_view(service_name), RecordKind::Ptr, unicast)
                == Some(bytes@),
            Err(err) => spec_encode_query(spec_name_view(service_name), RecordKind::Ptr, unicast)
                is None && err.kind == IoErrorKind::Other,
        },
{
    match encode_query(service_name, RecordKind::Ptr, unicast) {
        Some(bytes) => Ok(bytes),
        None => Err(IoError::new(IoErrorKind::Other, "Discovery packet failed to serialize")),
    }
}

/// Whether one of the names is the name asked about.
pub open spec fn spec_names(names: Seq<DnsNameView>, name: DnsNameView) -> bool {
    exists|i: int| 0 <= i < names.len() && (#[trigger] names[i]).folded == name.folded
}

/// The response in a datagram, if it holds one that the browser takes: a
/// message that answers and, where a service name is asked about, has an
/// answer at that name.
pub open spec fn spec_accepted(service_name: Option<DnsNameView>, packet: Seq<u8>, count: int) -> Option<
    InboundView,
> {
    match spec_read_packet(packet, count) {
        Some(message) => if message.kind == MessageKind::Response && (match service_name {
            Some(name) => spec_names(message.answer_names, name),
            None => true,
        }) {
            Some(message)
        } else {
            None
        },
        None => None,
    }
}

/// Whether one of the names is the name asked about.
fn has_name(names: &Vec<DnsName>, name: &DnsName) -> (r: bool)
    ensures
        r == spec_names(crate::dns::spec_names_view(names@), name@),
{
    let mut i: usize = 0;
    while i < names.len()
        invariant
            0 <= i <= names@.len(),
            forall|k: int| 0 <= k < i ==> (#[trigger] names@[k])@.folded != name@.folded,
        decreases names@.len() - i,
    {
        if bytes_eq(names[i].folded(), name.folded()) {
            assert(crate::dns::spec_names_view(names@)[i as int].folded == name@.folded);
            return true;
        }
        i += 1;
    }
    proof {
        let views = crate::dns::spec_names_view(names@);
        assert forall|k: int| 0 <= k < views.len() implies (#[trigger] views[k]).folded
            != name@.folded by {
            assert(views[k] == names@[k]@);
        }
    }
    false
}

/// Reads the response in a datagram, if it holds one that the browser
/// takes.
pub fn accept(service_name: Option<&DnsName>, packet: &[u8], count: usize) -> (r: Option<
    InboundMessage,
>)
    ensures
        match r {
            Some(message) => spec_accepted(spec_name_view(service_name), packet@, count as int)
                == Some(message@),
            None => spec_accepted(spec_name_view(service_name), packet@, count as int) is None,
        },
{
    let message = match InboundMessage::read(packet, count) {
        Some(message) => message,
        None => {
            return None;
        },
    };
    if !matches!(message.kind, MessageKind::Response) {
        return None;
    }
    match service_name {
        Some(name) => {
            if !has_name(&message.answer_names, name) {
                return None;
            }
        },
        None => {},
    }
    Some(message)
}

/// The responder that a response makes known.
pub open spec fn spec_responder(
    addr: SocketAddr,
    message: InboundView,
    packet: Seq<u8>,
    count: int,
    now: u64,
) -> ResponderView {
    ResponderView {
        addr,
        last_response: message,
        packet: packet.subrange(0, count),
        last_responded: now,
    }
}

/// Whether an event is the one that a response brings about: an update
/// from what the table held for the address, or the finding of a responder
/// at an address that the table did not hold.
pub open spec fn spec_response_event(
    before: Seq<EntryView>,
    responder: ResponderView,
    event: EventView,
) -> bool {
    &&& forall|i: int|
        0 <= i < before.len() && (#[trigger] before[i]).responder.addr == responder.addr ==> event
            == (EventView::ResponseUpdate { old: before[i].responder, new: responder })
    &&& !spec_present(before, responder.addr) ==> event == EventView::ResponderFound(responder)
}

/// Takes a datagram that arrived from `addr` at the time `now`, of which
/// the first `count` bytes of `packet` were filled. Where it holds a
/// response that the browser takes, the responder is put into the table
/// and the event to tell the user of is handed back.
pub fn recv_multicast(
    service_name: Option<&DnsName>,
    response_memory_bank: &mut ResponderMemory,
    count: usize,
    addr: SocketAddr,
    packet: &[u8],
    now: u64,
) -> (r: Option<DiscoveryEvent>)
    requires
        old(response_memory_bank).wf(),
    ensures
        final(response_memory_bank).wf(),
        match spec_accepted(spec_name_view(service_name), packet@, count as int) {
            Some(message) => {
                let responder = spec_responder(addr, message, packet@, count as int, now);
                &&& r is Some
                &&& spec_response_event(old(response_memory_bank)@, responder, r.unwrap()@)
                &&& spec_replaced(old(response_memory_bank)@, responder, final(response_memory_bank)@)
                &&& spec_present(final(response_memory_bank)@, addr)
            },
            None => r is None && final(response_memory_bank)@ == old(response_memory_bank)@,
        },
{
    let response = match accept(service_name, packet, count) {
        Some(response) => response,
        None => {
            return None;
        },
    };
    let ghost before = response_memory_bank@;
    let ghost held: Option<EntryView> = None;
    let old = match response_memory_bank.get(&addr) {
        Some(entry) => {
            proof {
                held = Some(entry@);
            }
            Some(share(&entry.inner))
        },
        None => None,
    };
    let filled = vstd::slice::slice_subrange(packet, 0, count);
    let new = Arc::new(
        Responder { addr, last_response: response, packet: copy(filled), last_responded: now },
    );
    let ghost responder = new@;
    response_memory_bank.replace(share(&new));
    let event = match old {
        Some(old) => {
            proof {
                let entry = held.unwrap();
                let k = choose|k: int| 0 <= k < before.len() && before[k] == entry;
                assert forall|i: int|
                    0 <= i < before.len() && (#[trigger] before[i]).responder.addr
                        == addr implies before[i].responder == old@ by {
                    assert(i == k);
                }
                assert(spec_present(before, addr));
            }
            DiscoveryEvent::ResponseUpdate { old, new }
        },
        None => DiscoveryEvent::ResponderFound(new),
    };
    Some(event)
}

/// A built mDNS discovery (client) instance, ready to be started.
///
/// A `Discovery` instance can be built using [`DiscoveryBuilder`].
#[derive(Debug)]
pub struct Discovery {
    /// What it takes to open the sockets.
    pub socket: SocketSettings,
    /// The service to ask about; `None` asks about every service.
    pub service_name: Option<DnsName>,
    /// How often to ask.
    pub interval: Duration,
    /// How many questions a responder may leave unanswered before it is
    /// lost; zero keeps every responder for ever.
    pub max_ignored_packets: u8,
}

impl Discovery {
    /// Returns a new [`DiscoveryBuilder`].
    pub fn builder() -> (r: DiscoveryBuilder)
        ensures
            r@ == builder::spec_default_builder(),
    {
        DiscoveryBuilder::new()
    }
}

/// The state of a running browser as mathematical values.
pub struct LoopView {
    /// The service asked about.
    pub service_name: Option<DnsNameView>,
    /// How many questions a responder may leave unanswered.
    pub max_ignored_packets: u8,
    /// The bytes of the question.
    pub discovery_packet: Seq<u8>,
    /// The presence table.
    pub memory: Seq<EntryView>,
    /// The time at which the responders are swept, while the browser waits
    /// for the answers to a question.
    pub grace_deadline: Option<u64>,
}

/// The state of a running browser: what its loop decides from. The caller
/// runs the timer and the socket and tells the loop what happened.
#[derive(Debug)]
pub struct DiscoveryLoop {
    service_name: Option<DnsName>,
    max_ignored_packets: u8,
    discovery_packet: Vec<u8>,
    responder_memory: ResponderMemory,
    grace_deadline: Option<u64>,
}

impl View for DiscoveryLoop {
    type V = LoopView;

    closed spec fn view(&self) -> LoopView {
        LoopView {
            service_name: match self.service_name {
                Some(name) => Some(name@),
                None => None,
            },
            max_ignored_packets: self.max_ignored_packets,
            discovery_packet: self.discovery_packet@,
            memory: self.responder_memory@,
            grace_deadline: self.grace_deadline,
        }
    }
}

/// What to do when the interval has passed.
#[derive(Debug)]
pub struct TickAction {
    /// The question to send to the group.
    pub packet: Vec<u8>,
    /// Until when to take answers before the responders are swept; `None`
    /// where responders are never lost and nothing is to be swept.
    pub grace_deadline: Option<u64>,
}

/// The end of the grace window that opens at `now`.
pub open spec fn spec_grace_deadline(now: u64) -> u64 {
    if now as int + GRACE_WINDOW_MILLIS as int > u64::MAX as int {
        u64::MAX
    } else {
        (now + GRACE_WINDOW_MILLIS) as u64
    }
}

/// The deadline of the window that a tick opens: none where responders are
/// never lost.
pub open spec fn spec_tick_deadline(max_ignored_packets: u8, now: u64) -> Option<u64> {
    if max_ignored_packets == 0 {
        None
    } else {
        Some(spec_grace_deadline(now))
    }
}

/// A deadline moved by the time that was spent on a datagram.
pub open spec fn spec_extended(deadline: Option<u64>, elapsed: u64) -> Option<u64> {
    match deadline {
        Some(at) => Some(
            if at as int + elapsed as int > u64::MAX as int {
                u64::MAX
            } else {
                (at + elapsed) as u64
            },
        ),
        None => None,
    }
}

/// The events that tell of the loss of each of the responders.
pub open spec fn spec_lost_events(lost: Seq<ResponderView>) -> Seq<EventView> {
    Seq::new(lost.len(), |i: int| EventView::ResponderLost(lost[i]))
}

impl DiscoveryLoop {
    /// Whether the state is one that the loop can be in: no address has
    /// two entries, and the question is the one for the service name.
    pub open spec fn wf(&self) -> bool {
        &&& spec_distinct(self@.memory)
        &&& spec_encode_query(self@.service_name, RecordKind::Ptr, false) == Some(
            self@.discovery_packet,
        )
    }

    /// The state in which a browser starts: it knows no responder and
    /// waits for its first tick. Fails where the question cannot be
    /// encoded.
    pub fn new(service_name: Option<DnsName>, max_ignored_packets: u8) -> (r: Result<Self, IoError>)
        ensures
            match r {
                Ok(state) => state.wf() && state@ == (LoopView {
                    service_name: match service_name {
                        Some(name) => Some(name@),
                        None => None,
                    },
                    max_ignored_packets,
                    discovery_packet: state@.discovery_packet,
                    memory: Seq::empty(),
                    grace_deadline: None,
                }),
                Err(err) => err.kind == IoErrorKind::Other && spec_encode_query(
                    match service_name {
                        Some(name) => Some(name@),
                        None => None,
                    },
                    RecordKind::Ptr,
                    false,
                ) is None,
            },
    {
        let packet = match discovery_packet(false, service_name.as_ref()) {
            Ok(packet) => packet,
            Err(err) => {
                return Err(err);
            },
        };
        let state = DiscoveryLoop {
            service_name,
            max_ignored_packets,
            discovery_packet: packet,
            responder_memory: ResponderMemory::new(),
            grace_deadline: None,
        };
        assert(state@.memory =~= Seq::<EntryView>::empty());
        Ok(state)
    }

    /// The presence table.
    pub fn responder_memory(&self) -> (r: &ResponderMemory)
        ensures
            r@ == self@.memory,
    {
        &self.responder_memory
    }

    /// Until when answers are taken before the responders are swept.
    pub fn grace_deadline(&self) -> (r: Option<u64>)
        ensures
            r == self@.grace_deadline,
    {
        self.grace_deadline
    }

    /// The interval has passed at the time `now`: hands back the question
    /// to send and, unless responders are never lost, opens the window in
    /// which answers are taken before the responders are swept.
    pub fn tick(&mut self, now: u64) -> (r: TickAction)
        ensures
            r.packet@ == old(self)@.discovery_packet,
            r.grace_deadline == spec_tick_deadline(old(self)@.max_ignored_packets, now),
            final(self)@ == (LoopView { grace_deadline: r.grace_deadline, ..old(self)@ }),
    {
        let deadline = if self.max_ignored_packets == 0 {
            None
        } else if now > u64::MAX - GRACE_WINDOW_MILLIS {
            Some(u64::MAX)
        } else {
            Some(now + GRACE_WINDOW_MILLIS)
        };
        self.grace_deadline = deadline;
        TickAction { packet: copy(self.discovery_packet.as_slice()), grace_deadline: deadline }
    }

    /// A datagram arrived from `addr` at the time `now` and filled the
    /// first `count` bytes of `packet`: hands back the event to tell the
    /// user of, if there is one.
    pub fn packet(&mut self, count: usize, addr: SocketAddr, packet: &[u8], now: u64) -> (r: Option<
        DiscoveryEvent,
    >)
        requires
            old(self).wf(),
        ensures
            final(self).wf(),
            final(self)@ == (LoopView { memory: final(self)@.memory, ..old(self)@ }),
            match spec_accepted(old(self)@.service_name, packet@, count as int) {
                Some(message) => {
                    let responder = spec_responder(addr, message, packet@, count as int, now);
                    &&& r is Some
                    &&& spec_response_event(old(self)@.memory, responder, r.unwrap()@)
                    &&& spec_replaced(old(self)@.memory, responder, final(self)@.memory)
                    &&& spec_present(final(self)@.memory, addr)
                },
                None => r is None && final(self)@.memory == old(self)@.memory,
            },
    {
        recv_multicast(
            self.service_name.as_ref(),
            &mut self.responder_memory,
            count,
            addr,
            packet,
            now,
        )
    }

    /// A datagram took `elapsed` milliseconds to handle: while answers are
    /// waited for, the sweep is put off by as much, so that handling the
    /// answers does not shorten the wait.
    pub fn processed(&mut self, elapsed: u64)
        ensures
            final(self)@ == (LoopView {
                grace_deadline: spec_extended(old(self)@.grace_deadline, elapsed),
                ..old(self)@
            }),
    {
        match self.grace_deadline {
            Some(at) => {
                if at > u64::MAX - elapsed {
                    self.grace_deadline = Some(u64::MAX);
                } else {
                    self.grace_deadline = Some(at + elapsed);
                }
            },
            None => {},
        }
    }

    /// The wait for answers is over: every responder has one more question
    /// unanswered, and those that had reached the limit before are lost.
    /// Hands back the events that tell of the lost ones. Outside a wait
    /// nothing happens.
    pub fn grace_expired(&mut self) -> (r: Vec<DiscoveryEvent>)
        requires
            old(self).wf(),
        ensures
            final(self).wf(),
            old(self)@.grace_deadline is Some ==> {
                &&& final(self)@ == (LoopView {
                    memory: spec_swept(old(self)@.memory, old(self)@.max_ignored_packets),
                    grace_deadline: None,
                    ..old(self)@
                })
                &&& spec_event_views(r@) == spec_lost_events(
                    spec_lost(old(self)@.memory, old(self)@.max_ignored_packets),
                )
                &&& r@.len() == spec_lost(old(self)@.memory, old(self)@.max_ignored_packets).len()
            },
            old(self)@.grace_deadline is None ==> final(self)@ == old(self)@ && r@.len() == 0,
    {
        let mut events: Vec<DiscoveryEvent> = Vec::new();
        if self.grace_deadline.is_none() {
            return events;
        }
        let ghost before = self@.memory;
        let mut lost = self.responder_memory.sweep(self.max_ignored_packets);
        self.grace_deadline = None;
        let ghost gone = spec_responder_views(lost@);
        let mut i: usize = 0;
        while i < lost.len()
            invariant
                0 <= i <= lost@.len(),
                spec_responder_views(lost@) == gone,
                events@.len() == i,
                forall|k: int|
                    0 <= k < i ==> (#[trigger] events@[k])@ == EventView::ResponderLost(gone[k]),
            decreases lost@.len() - i,
        {
            assert(gone[i as int] == lost@[i as int]@);
            events.push(DiscoveryEvent::ResponderLost(share(&lost[i])));
            i += 1;
        }
        assert(spec_event_views(events@) =~= spec_lost_events(gone));
        events
    }
}

} // verus!
