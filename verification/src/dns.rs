//! DNS messages as this crate reads and writes them. The messages are held
//! as values of this crate's own types; turning them into the bytes of a
//! datagram, and a datagram back into values, is the work of the DNS
//! library.

use crate::name::{DnsName, DnsNameView};
use crate::net::{Ipv4Addr, Ipv6Addr};
use trust_dns_client::op::{Message, MessageType, Query};
use trust_dns_client::rr::rdata::{SRV, TXT};
use trust_dns_client::rr::{Name, RData, Record, RecordType};
use trust_dns_client::serialize::binary::{BinDecodable, BinEncodable};
use vstd::prelude::*;

verus! {

/// The most records that one section of a message can hold: its count is a
/// 16-bit number.
pub const MAX_SECTION_RECORDS: usize = 65535;

/// Whether a message asks or answers.
#[derive(Clone, Copy, Debug, PartialEq, Eq, Structural)]
pub enum MessageKind {
    /// A question.
    Query,
    /// An answer.
    Response,
}

/// The kinds of record that this crate writes or asks for.
#[derive(Clone, Copy, Debug, PartialEq, Eq, Structural)]
pub enum RecordKind {
    /// An IPv4 address.
    A,
    /// An IPv6 address.
    Aaaa,
    /// A pointer to another name.
    Ptr,
    /// Where a service is found.
    Srv,
    /// Free text.
    Txt,
}

/// What a record carries, as mathematical values.
pub enum RecordDataView {
    /// An IPv4 address.
    A(Ipv4Addr),
    /// An IPv6 address.
    Aaaa(Ipv6Addr),
    /// The name pointed to.
    Ptr(DnsNameView),
    /// Where a service is found.
    Srv { priority: u16, weight: u16, port: u16, target: DnsNameView },
    /// The entries of the text, in order.
    Txt(Seq<Seq<u8>>),
}

/// A record as mathematical values.
pub struct RecordView {
    /// The name that the record belongs to.
    pub name: DnsNameView,
    /// How long the record may be kept, in seconds.
    pub ttl: u32,
    /// Whether the receiver is to drop what it held for this name before.
    pub cache_flush: bool,
    /// What the record carries.
    pub data: RecordDataView,
}

impl RecordView {
    /// The kind of the record, which follows from what it carries.
    pub open spec fn kind(self) -> RecordKind {
        match self.data {
            RecordDataView::A(_) => RecordKind::A,
            RecordDataView::Aaaa(_) => RecordKind::Aaaa,
            RecordDataView::Ptr(_) => RecordKind::Ptr,
            RecordDataView::Srv { .. } => RecordKind::Srv,
            RecordDataView::Txt(_) => RecordKind::Txt,
        }
    }
}

/// The entries of a text record as mathematical values.
pub open spec fn spec_txt_view(entries: Seq<Vec<u8>>) -> Seq<Seq<u8>> {
    Seq::new(entries.len(), |i: int| entries[i]@)
}

/// What a record carries.
#[derive(Debug)]
pub enum RecordData {
    /// An IPv4 address.
    A(Ipv4Addr),
    /// An IPv6 address.
    Aaaa(Ipv6Addr),
    /// The name pointed to.
    Ptr(DnsName),
    /// Where a service is found.
    Srv {
        /// The lower, the sooner this target is to be tried.
        priority: u16,
        /// The share of the load among targets of one priority.
        weight: u16,
        /// The port of the service.
        port: u16,
        /// The host of the service.
        target: DnsName,
    },
    /// The entries of the text, in order.
    Txt(Vec<Vec<u8>>),
}

impl View for RecordData {
    type V = RecordDataView;

    open spec fn view(&self) -> RecordDataView {
        match *self {
            RecordData::A(ip) => RecordDataView::A(ip),
            RecordData::Aaaa(ip) => RecordDataView::Aaaa(ip),
            RecordData::Ptr(name) => RecordDataView::Ptr(name@),
            RecordData::Srv { priority, weight, port, target } => RecordDataView::Srv {
                priority,
                weight,
                port,
                target: target@,
            },
            RecordData::Txt(entries) => RecordDataView::Txt(spec_txt_view(entries@)),
        }
    }
}

/// A resource record of class IN.
#[derive(Debug)]
pub struct DnsRecord {
    /// The name that the record belongs to.
    pub name: DnsName,
    /// How long the record may be kept, in seconds.
    pub ttl: u32,
    /// Whether the receiver is to drop what it held for this name before.
    pub cache_flush: bool,
    /// What the record carries.
    pub data: RecordData,
}

impl View for DnsRecord {
    type V = RecordView;

    open spec fn view(&self) -> RecordView {
        RecordView {
            name: self.name@,
            ttl: self.ttl,
            cache_flush: self.cache_flush,
            data: self.data@,
        }
    }
}

/// A list of records as mathematical values.
pub open spec fn spec_records_view(records: Seq<DnsRecord>) -> Seq<RecordView> {
    Seq::new(records.len(), |i: int| records[i]@)
}

/// The part of a message's header that this crate sets. The counts say what
/// the sections are meant to hold; on the wire the DNS library writes what
/// they do hold.
#[derive(Clone, Copy, Debug, PartialEq, Eq, Structural)]
pub struct MessageHeader {
    /// Whether the message asks or answers.
    pub kind: MessageKind,
    /// Whether the sender speaks with authority for the names.
    pub authoritative: bool,
    /// The number of answers announced.
    pub answer_count: u16,
    /// The number of additional records announced.
    pub additional_count: u16,
}

/// A message as mathematical values.
pub struct MessageView {
    /// The header.
    pub header: MessageHeader,
    /// The answers, in order.
    pub answers: Seq<RecordView>,
    /// The additional records, in order.
    pub additionals: Seq<RecordView>,
}

/// A message with answers and additional records, ready to be encoded.
#[derive(Debug)]
pub struct DnsMessage {
    /// The header.
    pub header: MessageHeader,
    /// The answers, in order.
    pub answers: Vec<DnsRecord>,
    /// The additional records, in order.
    pub additionals: Vec<DnsRecord>,
}

impl View for DnsMessage {
    type V = MessageView;

    open spec fn view(&self) -> MessageView {
        MessageView {
            header: self.header,
            answers: spec_records_view(self.answers@),
            additionals: spec_records_view(self.additionals@),
        }
    }
}

/// The DNS library's record type. Its values are only carried from the call
/// that makes them to the call that encodes them.
#[verifier::external_type_specification]
#[verifier::external_body]
pub struct ExRecord(Record);

/// The DNS library's type for what a record carries. Its values are only
/// carried from the call that makes them to the call that puts them into a
/// record.
#[verifier::external_type_specification]
#[verifier::external_body]
pub struct ExRData(RData);

/// The `trust_dns_client::rr::RData` that stands for these values, or `None`
/// where `Name::from_utf8` reads no name from the text of a name among them.
pub uninterp spec fn spec_rdata(data: RecordDataView) -> Option<RData>;

/// The record that `trust_dns_client::rr::Record::from_rdata` makes of the
/// name read from this text, the time to live and the data, with the
/// cache-flush bit as given, or `None` where `Name::from_utf8` reads no name
/// from the text.
pub uninterp spec fn spec_record(name: Seq<u8>, ttl: u32, cache_flush: bool, data: RData) -> Option<
    Record,
>;

/// The bytes that `trust_dns_client::op::Message::to_bytes` gives for the
/// message of this kind, with this mark of authority, these answers and
/// additional records and nothing else in it, or `None` where it fails.
pub uninterp spec fn spec_wire(
    kind: MessageKind,
    authoritative: bool,
    answers: Seq<Record>,
    additionals: Seq<Record>,
) -> Option<Seq<u8>>;

/// Builds the `trust_dns_client::rr::RData` of the matching variant from the
/// values handed over; names are read from their text with
/// `Name::from_utf8`, text entries go through `TXT::from_bytes`. The
/// contract only gives the outcome its name.
#[verifier::external_body]
fn make_rdata(data: &RecordData) -> (r: Option<RData>)
    ensures
        r == spec_rdata(data@),
{
    let name = |n: &DnsName| Name::from_utf8(std::str::from_utf8(n.text()).ok()?).ok();
    Some(match data {
        RecordData::A(ip) => RData::A(ip.bits.into()),
        RecordData::Aaaa(ip) => RData::AAAA(ip.bits.into()),
        RecordData::Ptr(target) => RData::PTR(name(target)?),
        RecordData::Srv { priority, weight, port, target } => RData::SRV(
            SRV::new(*priority, *weight, *port, name(target)?),
        ),
        RecordData::Txt(entries) => RData::TXT(
            TXT::from_bytes(entries.iter().map(|e| e.as_slice()).collect()),
        ),
    })
}

/// Builds a record with `trust_dns_client::rr::Record::from_rdata` from the
/// name read from the text with `Name::from_utf8`, the time to live and the
/// data, and sets its cache-flush bit with `set_mdns_cache_flush`. The
/// contract only gives the outcome its name.
#[verifier::external_body]
fn make_record(name: &[u8], ttl: u32, cache_flush: bool, data: RData) -> (r: Option<Record>)
    ensures
        r == spec_record(name@, ttl, cache_flush, data),
{
    let name = Name::from_utf8(std::str::from_utf8(name).ok()?).ok()?;
    let mut made = Record::from_rdata(name, ttl, data);
    made.set_mdns_cache_flush(cache_flush);
    Some(made)
}

/// Puts the records into a new `trust_dns_client::op::Message`, sets its
/// kind and its mark of authority, and encodes it with `to_bytes`, which
/// writes the counts of the sections itself. The library panics on a section
/// of more than 65535 records, so those are left out. The contract only
/// gives the outcome its name.
#[verifier::external_body]
fn emit(kind: MessageKind, authoritative: bool, answers: Vec<Record>, additionals: Vec<Record>) -> (r:
    Option<Vec<u8>>)
    requires
        answers@.len() <= MAX_SECTION_RECORDS,
        additionals@.len() <= MAX_SECTION_RECORDS,
    ensures
        r matches Some(bytes) ==> spec_wire(kind, authoritative, answers@, additionals@) == Some(
            bytes@,
        ),
        r is None ==> spec_wire(kind, authoritative, answers@, additionals@) is None,
{
    let mut message = Message::new();
    message.set_message_type(
        match kind {
            MessageKind::Query => MessageType::Query,
            MessageKind::Response => MessageType::Response,
        },
    );
    message.set_authoritative(authoritative);
    message.insert_answers(answers);
    message.insert_additionals(additionals);
    message.to_bytes().ok()
}

/// The DNS library's record that a record turns into, or `None` where it
/// turns into none.
pub open spec fn spec_to_record(record: RecordView) -> Option<Record> {
    match spec_rdata(record.data) {
        Some(data) => spec_record(record.name.text, record.ttl, record.cache_flush, data),
        None => None,
    }
}

/// Turns a record into the DNS library's record.
fn to_record(record: &DnsRecord) -> (r: Option<Record>)
    ensures
        r == spec_to_record(record@),
{
    match make_rdata(&record.data) {
        Some(data) => make_record(record.name.text(), record.ttl, record.cache_flush, data),
        None => None,
    }
}

/// The DNS library's records that a list of records turns into, or `None`
/// where one of them turns into none.
pub open spec fn spec_records(records: Seq<RecordView>) -> Option<Seq<Record>>
    decreases records.len(),
{
    if records.len() == 0 {
        Some(Seq::empty())
    } else {
        match (spec_records(records.drop_last()), spec_to_record(records.last())) {
            (Some(front), Some(last)) => Some(front.push(last)),
            _ => None,
        }
    }
}

/// The bytes of a message on the wire, or `None` where the DNS library
/// cannot encode it.
pub open spec fn spec_encode(message: MessageView) -> Option<Seq<u8>> {
    match (spec_records(message.answers), spec_records(message.additionals)) {
        (Some(answers), Some(additionals)) => spec_wire(
            message.header.kind,
            message.header.authoritative,
            answers,
            additionals,
        ),
        _ => None,
    }
}

/// Turns each record of a list into the DNS library's record.
fn make_records(records: &Vec<DnsRecord>) -> (r: Option<Vec<Record>>)
    ensures
        r matches Some(made) ==> spec_records(spec_records_view(records@)) == Some(made@),
        r is None ==> spec_records(spec_records_view(records@)) is None,
{
    let mut made: Vec<Record> = Vec::new();
    let mut i: usize = 0;
    let ghost views = spec_records_view(records@);
    while i < records.len()
        invariant
            0 <= i <= records@.len(),
            views == spec_records_view(records@),
            spec_records(views.subrange(0, i as int)) == Some(made@),
        decreases records@.len() - i,
    {
        proof {
            assert(views.subrange(0, i + 1).drop_last() =~= views.subrange(0, i as int));
            assert(views.subrange(0, i + 1).last() == records@[i as int]@);
        }
        match to_record(&records[i]) {
            Some(record) => {
                made.push(record);
            },
            None => {
                proof {
                    lemma_records_none(views, i + 1);
                }
                return None;
            },
        }
        i += 1;
    }
    assert(views.subrange(0, i as int) =~= views);
    Some(made)
}

/// Where a front part of a list turns into no list of records, the whole
/// list turns into none.
proof fn lemma_records_none(records: Seq<RecordView>, n: int)
    requires
        0 <= n <= records.len(),
        spec_records(records.subrange(0, n)) is None,
    ensures
        spec_records(records) is None,
    decreases records.len() - n,
{
    if n < records.len() {
        assert(records.subrange(0, n + 1).drop_last() =~= records.subrange(0, n));
        lemma_records_none(records, n + 1);
    } else {
        assert(records.subrange(0, n) =~= records);
    }
}

/// The records of a list that does turn into the library's records are as
/// many as the list's.
pub proof fn lemma_records_len(records: Seq<RecordView>)
    ensures
        spec_records(records) matches Some(made) ==> made.len() == records.len(),
    decreases records.len(),
{
    if records.len() > 0 {
        lemma_records_len(records.drop_last());
    }
}

impl DnsMessage {
    /// Encodes the message for the wire. A message with more records in a
    /// section than its count can say is not encoded.
    pub fn to_bytes(&self) -> (r: Option<Vec<u8>>)
        ensures
            self.answers@.len() > MAX_SECTION_RECORDS || self.additionals@.len()
                > MAX_SECTION_RECORDS ==> r is None,
            self.answers@.len() <= MAX_SECTION_RECORDS && self.additionals@.len()
                <= MAX_SECTION_RECORDS ==> match r {
                Some(bytes) => spec_encode(self@) == Some(bytes@),
                None => spec_encode(self@) is None,
            },
    {
        if self.answers.len() > MAX_SECTION_RECORDS || self.additionals.len()
            > MAX_SECTION_RECORDS {
            return None;
        }
        let answers = match make_records(&self.answers) {
            Some(made) => made,
            None => {
                return None;
            },
        };
        let additionals = match make_records(&self.additionals) {
            Some(made) => made,
            None => {
                return None;
            },
        };
        proof {
            lemma_records_len(spec_records_view(self.answers@));
            lemma_records_len(spec_records_view(self.additionals@));
        }
        emit(self.header.kind, self.header.authoritative, answers, additionals)
    }
}

/// A question as mathematical values.
pub struct QuestionView {
    /// The name asked about.
    pub name: DnsNameView,
    /// Whether the answer is wanted at the asker's own address.
    pub unicast_response: bool,
}

/// The first question of a message.
#[derive(Debug)]
pub struct Question {
    /// The name asked about.
    pub name: DnsName,
    /// Whether the answer is wanted at the asker's own address rather than
    /// at the group's.
    pub unicast_response: bool,
}

impl View for Question {
    type V = QuestionView;

    open spec fn view(&self) -> QuestionView {
        QuestionView { name: self.name@, unicast_response: self.unicast_response }
    }
}

/// A list of names as mathematical values.
pub open spec fn spec_names_view(names: Seq<DnsName>) -> Seq<DnsNameView> {
    Seq::new(names.len(), |i: int| names[i]@)
}

/// What this crate reads in a datagram, as mathematical values.
pub struct InboundView {
    /// Whether the message asks or answers.
    pub kind: MessageKind,
    /// Whether the sender had to cut the message short.
    pub truncated: bool,
    /// The first question, if there is one.
    pub question: Option<QuestionView>,
    /// The names of the answers, in order.
    pub answer_names: Seq<DnsNameView>,
    /// The names of the additional records, in order.
    pub additional_names: Seq<DnsNameView>,
}

/// What this crate reads in a datagram.
#[derive(Debug)]
pub struct InboundMessage {
    /// Whether the message asks or answers.
    pub kind: MessageKind,
    /// Whether the sender had to cut the message short.
    pub truncated: bool,
    /// The first question, if there is one.
    pub question: Option<Question>,
    /// The names of the answers, in order.
    pub answer_names: Vec<DnsName>,
    /// The names of the additional records, in order.
    pub additional_names: Vec<DnsName>,
}

impl View for InboundMessage {
    type V = InboundView;

    open spec fn view(&self) -> InboundView {
        InboundView {
            kind: self.kind,
            truncated: self.truncated,
            question: match self.question {
                Some(q) => Some(q@),
                None => None,
            },
            answer_names: spec_names_view(self.answer_names@),
            additional_names: spec_names_view(self.additional_names@),
        }
    }
}

/// What `trust_dns_client::op::Message::from_bytes` reads in these bytes, or
/// `None` where it reads no message.
pub uninterp spec fn spec_decode(bytes: Seq<u8>) -> Option<InboundView>;

/// The bytes that `trust_dns_client::op::Message::to_bytes` gives for the
/// message that holds one question and nothing else: about the name read
/// from this text (the empty name where there is none), for records of this
/// kind, with the unicast bit as given. `None` where no name is read or the
/// encoding fails.
pub uninterp spec fn spec_query_wire(name: Option<Seq<u8>>, kind: RecordKind, unicast: bool) -> Option<
    Seq<u8>,
>;

/// Decodes a datagram with `trust_dns_client::op::Message::from_bytes` and
/// hands back, of what the message holds, its kind, its truncation bit, its
/// first question and the names of its answers and additional records, each
/// name as `to_utf8()` and `to_lowercase().to_utf8()` write it. The contract
/// only gives the outcome its name.
#[verifier::external_body]
fn decode(bytes: &[u8]) -> (r: Option<InboundMessage>)
    ensures
        r matches Some(message) ==> spec_decode(bytes@) == Some(message@),
        r is None ==> spec_decode(bytes@) is None,
{
    let m = Message::from_bytes(bytes).ok()?;
    let plain = |n: &Name| DnsName {
        text: n.to_utf8().into_bytes(),
        folded: n.to_lowercase().to_utf8().into_bytes(),
    };
    Some(InboundMessage {
        kind: match m.message_type() {
            MessageType::Query => MessageKind::Query,
            MessageType::Response => MessageKind::Response,
        },
        truncated: m.truncated(),
        question: m.query().map(|q| Question { name: plain(q.name()), unicast_response: q.mdns_unicast_response() }),
        answer_names: m.answers().iter().map(|r| plain(r.name())).collect(),
        additional_names: m.additionals().iter().map(|r| plain(r.name())).collect(),
    })
}

/// Builds a `trust_dns_client::op::Query` for the name read from the text
/// with `Name::from_utf8` (the empty name where there is no text), sets its
/// type and its unicast bit, puts it into a new message with `add_query` and
/// encodes that with `to_bytes`. The contract only gives the outcome its
/// name.
#[verifier::external_body]
fn emit_query(name: Option<&[u8]>, kind: RecordKind, unicast: bool) -> (r: Option<Vec<u8>>)
    ensures
        r matches Some(bytes) ==> spec_query_wire(
            match name {
                Some(text) => Some(text@),
                None => None,
            },
            kind,
            unicast,
        ) == Some(bytes@),
        r is None ==> spec_query_wire(
            match name {
                Some(text) => Some(text@),
                None => None,
            },
            kind,
            unicast,
        ) is None,
{
    let mut query = Query::new();
    query.set_name(match name {
        Some(text) => Name::from_utf8(std::str::from_utf8(text).ok()?).ok()?,
        None => Name::new(),
    });
    query.set_query_type(match kind {
        RecordKind::A => RecordType::A,
        RecordKind::Aaaa => RecordType::AAAA,
        RecordKind::Ptr => RecordType::PTR,
        RecordKind::Srv => RecordType::SRV,
        RecordKind::Txt => RecordType::TXT,
    }).set_mdns_unicast_response(unicast);
    let mut message = Message::new();
    message.add_query(query);
    message.to_bytes().ok()
}

/// The bytes of the question that asks for records of a kind at a name (at
/// the empty name where none is given), or `None` where the DNS library
/// cannot encode it.
pub open spec fn spec_encode_query(name: Option<DnsNameView>, kind: RecordKind, unicast: bool) -> Option<
    Seq<u8>,
> {
    spec_query_wire(
        match name {
            Some(n) => Some(n.text),
            None => None,
        },
        kind,
        unicast,
    )
}

/// Encodes the message that asks one question: for records of `kind` at
/// `name`, or at the empty name where `name` is `None`.
pub fn encode_query(name: Option<&DnsName>, kind: RecordKind, unicast: bool) -> (r: Option<Vec<u8>>)
    ensures
        match r {
            Some(bytes) => spec_encode_query(
                match name {
                    Some(n) => Some(n@),
                    None => None,
                },
                kind,
                unicast,
            ) == Some(bytes@),
            None => spec_encode_query(
                match name {
                    Some(n) => Some(n@),
                    None => None,
                },
                kind,
                unicast,
            ) is None,
        },
{
    match name {
        Some(n) => emit_query(Some(n.text()), kind, unicast),
        None => emit_query(None, kind, unicast),
    }
}

/// The message in a datagram of which the first `count` bytes were filled,
/// or `None` where those bytes hold no message: nothing arrived, or the DNS
/// library cannot decode what did.
pub open spec fn spec_read_packet(packet: Seq<u8>, count: int) -> Option<InboundView> {
    if 0 < count <= packet.len() {
        spec_decode(packet.subrange(0, count))
    } else {
        None
    }
}

impl InboundMessage {
    /// Reads the message in the first `count` bytes of `packet`.
    pub fn read(packet: &[u8], count: usize) -> (r: Option<InboundMessage>)
        ensures
            match r {
                Some(message) => spec_read_packet(packet@, count as int) == Some(message@),
                None => spec_read_packet(packet@, count as int) is None,
            },
    {
        if count == 0 || count > packet.len() {
            return None;
        }
        let filled = vstd::slice::slice_subrange(packet, 0, count);
        decode(filled)
    }
}

} // verus!
