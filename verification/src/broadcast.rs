//! The responder: the services it advertises and the answers it gives.

pub mod builder;
pub mod config;
pub mod errors;
pub mod service;

pub use builder::BroadcasterBuilder;
pub use config::BroadcasterConfig;
pub use service::{IntoServiceTxt, Service, ServiceBuilder, ServiceDnsResponse};

use crate::bytes::{bytes_eq, copy, ends_with, spec_ends_with};
use crate::dns::{spec_read_packet, InboundMessage, Question, QuestionView};
use crate::name::{DnsName, DnsNameView};
use crate::net::SocketAddr;
use crate::socket::SocketSettings;
use config::spec_record_views;
use service::{ServiceRecordView, ServiceView};
use vstd::prelude::*;

verus! {

/// Where an answer goes.
#[derive(Clone, Copy, Debug, PartialEq, Eq, Structural)]
pub enum ReplyTarget {
    /// To the address that asked.
    Unicast(SocketAddr),
    /// To the group, on every interface of every family.
    Multicast,
}

/// An answer to send, as mathematical values.
pub struct ReplyView {
    /// The bytes of the response.
    pub packet: Seq<u8>,
    /// Where the response goes.
    pub target: ReplyTarget,
}

/// An answer to send.
#[derive(Debug)]
pub struct Reply {
    /// The bytes of the response.
    pub packet: Vec<u8>,
    /// Where the response goes.
    pub target: ReplyTarget,
}

impl View for Reply {
    type V = ReplyView;

    open spec fn view(&self) -> ReplyView {
        ReplyView { packet: self.packet@, target: self.target }
    }
}

/// The answers of a list as mathematical values.
pub open spec fn spec_reply_views(replies: Seq<Reply>) -> Seq<ReplyView> {
    Seq::new(replies.len(), |i: int| replies[i]@)
}

/// Whether a service answers a question about a name: the name is the
/// service's type, or the service answers for subtypes and the name's text
/// ends with the service's subtype suffix.
pub open spec fn spec_matches(service: ServiceView, name: DnsNameView) -> bool {
    ||| service.service_type.folded == name.folded
    ||| (service.subtype_suffix matches Some(suffix) && spec_ends_with(name.text, suffix))
}

/// Where the answer to a question goes: to the asker where the question
/// asks for that, to the group otherwise.
pub open spec fn spec_target(question: QuestionView, source: SocketAddr) -> ReplyTarget {
    if question.unicast_response {
        ReplyTarget::Unicast(source)
    } else {
        ReplyTarget::Multicast
    }
}

/// The answers to a question: the response of each service of the table
/// that answers it and whose response could be encoded, in the order of the
/// table.
pub open spec fn spec_replies(
    records: Seq<ServiceRecordView>,
    question: QuestionView,
    source: SocketAddr,
) -> Seq<ReplyView>
    decreases records.len(),
{
    if records.len() == 0 {
        Seq::empty()
    } else {
        let front = spec_replies(records.drop_last(), question, source);
        let last = records.last();
        if spec_matches(last.service, question.name) && last.packet is Some {
            front.push(
                ReplyView { packet: last.packet.unwrap(), target: spec_target(question, source) },
            )
        } else {
            front
        }
    }
}

/// The answers to a datagram of which `count` bytes were filled: none where
/// those bytes hold no message, a truncated one, or one without a question;
/// else the answers to its first question.
pub open spec fn spec_handle_packet(
    records: Seq<ServiceRecordView>,
    packet: Seq<u8>,
    count: int,
    source: SocketAddr,
) -> Seq<ReplyView> {
    match spec_read_packet(packet, count) {
        Some(message) => if message.truncated {
            Seq::empty()
        } else {
            match message.question {
                Some(question) => spec_replies(records, question, source),
                None => Seq::empty(),
            }
        },
        None => Seq::empty(),
    }
}

/// Whether a service answers a question about a name.
pub fn service_matches(service: &Service, name: &DnsName) -> (r: bool)
    ensures
        r == spec_matches(service@, name@),
{
    if bytes_eq(service.service_type().folded(), name.folded()) {
        return true;
    }
    match service.subtype_suffix() {
        Some(suffix) => ends_with(name.text(), suffix),
        None => false,
    }
}

impl BroadcasterConfig {
    /// The answers to a question that came from `source`.
    pub fn replies(&self, question: &Question, source: SocketAddr) -> (r: Vec<Reply>)
        ensures
            spec_reply_views(r@) == spec_replies(self@, question@, source),
            r@.len() == spec_replies(self@, question@, source).len(),
    {
        let services = self.services();
        let ghost records = self@;
        let target = if question.unicast_response {
            ReplyTarget::Unicast(source)
        } else {
            ReplyTarget::Multicast
        };
        let mut replies: Vec<Reply> = Vec::new();
        let mut i: usize = 0;
        while i < services.len()
            invariant
                0 <= i <= services@.len(),
                spec_record_views(services@) == records,
                target == spec_target(question@, source),
                spec_reply_views(replies@) == spec_replies(
                    records.subrange(0, i as int),
                    question@,
                    source,
                ),
            decreases services@.len() - i,
        {
            proof {
                assert(records.subrange(0, i + 1).drop_last() =~= records.subrange(0, i as int));
                assert(records.subrange(0, i + 1).last() == services@[i as int]@);
            }
            let ghost before = spec_reply_views(replies@);
            if service_matches(services[i].service(), &question.name) {
                match services[i].packet() {
                    Some(bytes) => {
                        replies.push(Reply { packet: copy(bytes), target });
                        assert(spec_reply_views(replies@) =~= before.push(
                            ReplyView { packet: bytes@, target },
                        ));
                    },
                    None => {},
                }
            }
            i += 1;
        }
        assert(records.subrange(0, i as int) =~= records);
        replies
    }

    /// What to send in answer to a datagram that came from `source` and
    /// filled the first `count` bytes of `packet`.
    pub fn handle_packet(&self, packet: &[u8], count: usize, source: SocketAddr) -> (r: Vec<Reply>)
        ensures
            spec_reply_views(r@) == spec_handle_packet(self@, packet@, count as int, source),
            r@.len() == spec_handle_packet(self@, packet@, count as int, source).len(),
    {
        let message = match InboundMessage::read(packet, count) {
            Some(message) => message,
            None => {
                let none: Vec<Reply> = Vec::new();
                assert(spec_reply_views(none@) =~= Seq::<ReplyView>::empty());
                return none;
            },
        };
        if message.truncated {
            let none: Vec<Reply> = Vec::new();
            assert(spec_reply_views(none@) =~= Seq::<ReplyView>::empty());
            return none;
        }
        match &message.question {
            Some(question) => self.replies(question, source),
            None => {
                let none: Vec<Reply> = Vec::new();
                assert(spec_reply_views(none@) =~= Seq::<ReplyView>::empty());
                none
            },
        }
    }
}

/// A built mDNS broadcaster (server) instance, ready to be started: the
/// settings of its sockets and the table of its services.
#[derive(Debug)]
pub struct Broadcaster {
    /// What it takes to open the sockets.
    pub socket: SocketSettings,
    /// The services to advertise.
    pub config: BroadcasterConfig,
}

} // verus!
