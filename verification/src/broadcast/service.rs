//! Services that can be advertised, how they are built, and the response
//! that answers a question about one.

use super::errors::{ServiceBuilderError, ServiceDnsPacketBuilderError};
use crate::bytes::{concat, copy};
use crate::dns::{
    spec_encode, spec_txt_view, DnsMessage, DnsRecord, MessageHeader, MessageKind, MessageView,
    RecordData, RecordDataView, RecordKind, RecordView, MAX_SECTION_RECORDS,
};
use crate::errors::BadDnsNameError;
use crate::name::{spec_into_fqdn, spec_rooted, DnsName, DnsNameView, IntoDnsName};
use crate::net::{lemma_rank_injective, IpAddr};
use vstd::prelude::*;

verus! {

/// The most bytes that one TXT entry can hold.
pub const TXT_MAX_LEN: usize = 255;

/// The time to live of a service's records unless another is asked for, in
/// seconds.
pub const DEFAULT_TTL: u32 = 120;

/// The first `TXT_MAX_LEN` bytes of an entry, or all of it where it has no
/// more.
pub open spec fn spec_truncated(entry: Seq<u8>) -> Seq<u8> {
    if entry.len() > TXT_MAX_LEN {
        entry.subrange(0, TXT_MAX_LEN as int)
    } else {
        entry
    }
}

/// Convenience trait implemented for types that can be interpreted as a DNS
/// TXT record.
pub trait IntoServiceTxt: Sized {
    /// The bytes that the value stands for.
    spec fn spec_txt(&self) -> Seq<u8>;

    /// Converts this value into the bytes of a TXT entry.
    fn into_service_txt(self) -> (r: Vec<u8>)
        ensures
            r@ == self.spec_txt(),
    ;

    /// Same as [`into_service_txt`](IntoServiceTxt::into_service_txt), but
    /// truncates the value to 255 bytes.
    fn into_service_txt_truncated(self) -> (r: Vec<u8>)
        ensures
            r@ == spec_truncated(self.spec_txt()),
    ;
}

impl IntoServiceTxt for Vec<u8> {
    open spec fn spec_txt(&self) -> Seq<u8> {
        self@
    }

    fn into_service_txt(self) -> (r: Vec<u8>) {
        self
    }

    fn into_service_txt_truncated(self) -> (r: Vec<u8>) {
        let mut entry = self;
        if entry.len() > TXT_MAX_LEN {
            entry.truncate(TXT_MAX_LEN);
        }
        entry
    }
}

impl<'a> IntoServiceTxt for &'a [u8] {
    open spec fn spec_txt(&self) -> Seq<u8> {
        self@
    }

    fn into_service_txt(self) -> (r: Vec<u8>) {
        copy(self)
    }

    fn into_service_txt_truncated(self) -> (r: Vec<u8>) {
        copy(self).into_service_txt_truncated()
    }
}

impl<'a, const N: usize> IntoServiceTxt for &'a [u8; N] {
    open spec fn spec_txt(&self) -> Seq<u8> {
        self@
    }

    fn into_service_txt(self) -> (r: Vec<u8>) {
        copy(self.as_slice())
    }

    fn into_service_txt_truncated(self) -> (r: Vec<u8>) {
        copy(self.as_slice()).into_service_txt_truncated()
    }
}

impl IntoServiceTxt for String {
    open spec fn spec_txt(&self) -> Seq<u8> {
        vstd::utf8::encode_utf8(self@)
    }

    fn into_service_txt(self) -> (r: Vec<u8>) {
        copy(self.as_str().as_bytes())
    }

    fn into_service_txt_truncated(self) -> (r: Vec<u8>) {
        copy(self.as_str().as_bytes()).into_service_txt_truncated()
    }
}

impl<'a> IntoServiceTxt for &'a str {
    open spec fn spec_txt(&self) -> Seq<u8> {
        vstd::utf8::encode_utf8(self@)
    }

    fn into_service_txt(self) -> (r: Vec<u8>) {
        copy(self.as_bytes())
    }

    fn into_service_txt_truncated(self) -> (r: Vec<u8>) {
        copy(self.as_bytes()).into_service_txt_truncated()
    }
}

/// A service as mathematical values.
pub struct ServiceView {
    /// The service type, such as `_foo._udp.local.`.
    pub service_type: DnsNameView,
    /// The name of this instance of the service, such as `myhost.`.
    pub service_name: DnsNameView,
    /// The name of the host: the instance name in the domain `local.`.
    pub service_hostname: DnsNameView,
    /// The instance name followed by the service type.
    pub service_id: DnsNameView,
    /// The text that a question's name must end with to count as asking for
    /// a subtype of this service, if subtypes are answered.
    pub subtype_suffix: Option<Seq<u8>>,
    /// The addresses of the service, in ascending order, none twice.
    pub ip_addresses: Seq<IpAddr>,
    /// The port of the service.
    pub port: u16,
    /// The TXT entries, in the order in which they were added.
    pub txt: Seq<Seq<u8>>,
    /// The time to live of the service's records, in seconds.
    pub ttl: u32,
}

/// The text `local.`.
pub open spec fn spec_local_domain() -> Seq<u8> {
    seq![108u8, 111u8, 99u8, 97u8, 108u8, 46u8]
}

/// The text `_sub.`.
pub open spec fn spec_sub_label() -> Seq<u8> {
    seq![95u8, 115u8, 117u8, 98u8, 46u8]
}

/// The text `.`.
pub open spec fn spec_dot() -> Seq<u8> {
    seq![46u8]
}

/// Whether the addresses stand in strictly ascending order.
pub open spec fn spec_strictly_ascending(ips: Seq<IpAddr>) -> bool {
    forall|i: int, j: int| 0 <= i < j < ips.len() ==> ips[i].rank() < ips[j].rank()
}

/// The service that the builder starts from, or `None` where one of its
/// names is no DNS name: no address and no text yet, the default time to
/// live, the instance's identifier made of the instance name followed by
/// the service type, and its host made of the instance name in `local.`.
pub open spec fn spec_new_service(service_type: Seq<u8>, service_name: Seq<u8>, port: u16) -> Option<
    ServiceView,
> {
    match (spec_into_fqdn(service_type), spec_into_fqdn(service_name)) {
        (Some(ty), Some(name)) => match (
            spec_into_fqdn(name.text + ty.text),
            spec_into_fqdn(name.text + spec_local_domain()),
        ) {
            (Some(id), Some(host)) => Some(
                ServiceView {
                    service_type: ty,
                    service_name: name,
                    service_hostname: host,
                    service_id: id,
                    subtype_suffix: None,
                    ip_addresses: Seq::empty(),
                    port,
                    txt: Seq::empty(),
                    ttl: DEFAULT_TTL,
                },
            ),
            _ => None,
        },
        _ => None,
    }
}

/// The suffix by which subtypes of a service type are recognised: a dot
/// followed by the name `_sub.<service type>`, or `None` where that is no
/// DNS name.
pub open spec fn spec_subtype_suffix(service_type: Seq<u8>) -> Option<Seq<u8>> {
    match spec_into_fqdn(spec_sub_label() + service_type) {
        Some(name) => Some(spec_dot() + name.text),
        None => None,
    }
}

/// Whether a service is well formed: its addresses are an ordered set, and
/// each of its names is fully qualified, ending with the root's dot.
pub open spec fn spec_wf(service: ServiceView) -> bool {
    &&& spec_strictly_ascending(service.ip_addresses)
    &&& spec_rooted(service.service_type.text)
    &&& spec_rooted(service.service_name.text)
    &&& spec_rooted(service.service_hostname.text)
    &&& spec_rooted(service.service_id.text)
}

/// Whether a service may be advertised: it has an address, and none of its
/// TXT entries is longer than 255 bytes.
pub open spec fn spec_valid(service: ServiceView) -> bool {
    &&& service.ip_addresses.len() > 0
    &&& forall|i: int| 0 <= i < service.txt.len() ==> #[trigger] service.txt[i].len() <= TXT_MAX_LEN
}

/// The record that tells one address of a service's host.
pub open spec fn spec_address_record(service: ServiceView, ip: IpAddr) -> RecordView {
    RecordView {
        name: service.service_hostname,
        ttl: service.ttl,
        cache_flush: true,
        data: match ip {
            IpAddr::V4(a) => RecordDataView::A(a),
            IpAddr::V6(a) => RecordDataView::Aaaa(a),
        },
    }
}

/// The record that points from a service's type to this instance of it.
pub open spec fn spec_ptr_record(service: ServiceView) -> RecordView {
    RecordView {
        name: service.service_type,
        ttl: service.ttl,
        cache_flush: false,
        data: RecordDataView::Ptr(service.service_id),
    }
}

/// The record that tells host and port of a service.
pub open spec fn spec_srv_record(service: ServiceView) -> RecordView {
    RecordView {
        name: service.service_id,
        ttl: service.ttl,
        cache_flush: false,
        data: RecordDataView::Srv {
            priority: 0,
            weight: 0,
            port: service.port,
            target: service.service_hostname,
        },
    }
}

/// The record that carries a service's TXT entries.
pub open spec fn spec_txt_record(service: ServiceView) -> RecordView {
    RecordView {
        name: service.service_id,
        ttl: service.ttl,
        cache_flush: true,
        data: RecordDataView::Txt(service.txt),
    }
}

/// The additional records of a service's response: one address record for
/// each address, in the order of the addresses, then the SRV record, then
/// the TXT record.
pub open spec fn spec_additionals(service: ServiceView) -> Seq<RecordView> {
    Seq::new(
        service.ip_addresses.len(),
        |i: int| spec_address_record(service, service.ip_addresses[i]),
    ).push(spec_srv_record(service)).push(spec_txt_record(service))
}

/// Whether a service's additional records can be counted in the header of a
/// message.
pub open spec fn spec_fits(service: ServiceView) -> bool {
    service.ip_addresses.len() + 2 <= MAX_SECTION_RECORDS
}

/// The response that answers a question about a service: authoritative, one
/// PTR answer, and the additional records.
pub open spec fn spec_response(service: ServiceView) -> MessageView {
    MessageView {
        header: MessageHeader {
            kind: MessageKind::Response,
            authoritative: true,
            answer_count: 1,
            additional_count: (service.ip_addresses.len() + 2) as u16,
        },
        answers: seq![spec_ptr_record(service)],
        additionals: spec_additionals(service),
    }
}

/// A service that can be advertised on the network.
///
/// This can be created using the [`ServiceBuilder`].
#[derive(Debug)]
pub struct Service {
    service_type: DnsName,
    service_name: DnsName,
    service_hostname: DnsName,
    service_id: DnsName,
    service_subtype_suffix: Option<Vec<u8>>,
    ip_addresses: Vec<IpAddr>,
    port: u16,
    txt: Vec<Vec<u8>>,
    ttl: u32,
}

impl View for Service {
    type V = ServiceView;

    closed spec fn view(&self) -> ServiceView {
        ServiceView {
            service_type: self.service_type@,
            service_name: self.service_name@,
            service_hostname: self.service_hostname@,
            service_id: self.service_id@,
            subtype_suffix: match self.service_subtype_suffix {
                Some(suffix) => Some(suffix@),
                None => None,
            },
            ip_addresses: self.ip_addresses@,
            port: self.port,
            txt: spec_txt_view(self.txt@),
            ttl: self.ttl,
        }
    }
}

/// A copy of a list of TXT entries.
fn copy_entries(entries: &Vec<Vec<u8>>) -> (r: Vec<Vec<u8>>)
    ensures
        spec_txt_view(r@) == spec_txt_view(entries@),
{
    let mut out: Vec<Vec<u8>> = Vec::new();
    let mut i: usize = 0;
    while i < entries.len()
        invariant
            0 <= i <= entries@.len(),
            out@.len() == i,
            forall|k: int| 0 <= k < i ==> out@[k]@ == entries@[k]@,
        decreases entries@.len() - i,
    {
        out.push(copy(entries[i].as_slice()));
        i += 1;
    }
    assert(spec_txt_view(out@) =~= spec_txt_view(entries@));
    out
}

/// A copy of a list of addresses.
fn copy_addresses(ips: &Vec<IpAddr>) -> (r: Vec<IpAddr>)
    ensures
        r@ == ips@,
{
    let mut out: Vec<IpAddr> = Vec::new();
    let mut i: usize = 0;
    while i < ips.len()
        invariant
            0 <= i <= ips@.len(),
            out@ == ips@.subrange(0, i as int),
        decreases ips@.len() - i,
    {
        out.push(ips[i]);
        assert(out@ =~= ips@.subrange(0, i + 1));
        i += 1;
    }
    assert(out@ =~= ips@);
    out
}

impl Service {
    /// Whether the addresses are kept as an ordered set and the names are
    /// fully qualified.
    pub open spec fn wf(&self) -> bool {
        spec_wf(self@)
    }

    /// The service type.
    pub fn service_type(&self) -> (r: &DnsName)
        ensures
            r@ == self@.service_type,
    {
        &self.service_type
    }

    /// The service name.
    pub fn service_name(&self) -> (r: &DnsName)
        ensures
            r@ == self@.service_name,
    {
        &self.service_name
    }

    /// The name of the host that offers the service.
    pub fn service_hostname(&self) -> (r: &DnsName)
        ensures
            r@ == self@.service_hostname,
    {
        &self.service_hostname
    }

    /// The name of this instance of the service.
    pub fn service_id(&self) -> (r: &DnsName)
        ensures
            r@ == self@.service_id,
    {
        &self.service_id
    }

    /// The IP addresses this service is available on.
    pub fn ip_addresses(&self) -> (r: &Vec<IpAddr>)
        ensures
            r@ == self@.ip_addresses,
    {
        &self.ip_addresses
    }

    /// The port this service is available on.
    pub fn port(&self) -> (r: u16)
        ensures
            r == self@.port,
    {
        self.port
    }

    /// The TTL of this service record when it is advertised over DNS.
    pub fn ttl(&self) -> (r: u32)
        ensures
            r == self@.ttl,
    {
        self.ttl
    }

    /// The TXT records of this service.
    pub fn txt(&self) -> (r: &Vec<Vec<u8>>)
        ensures
            spec_txt_view(r@) == self@.txt,
    {
        &self.txt
    }

    /// Whether the service can be subtyped.
    pub fn can_subtype(&self) -> (r: bool)
        ensures
            r == self@.subtype_suffix.is_some(),
    {
        self.service_subtype_suffix.is_some()
    }

    /// The suffix by which questions about subtypes are recognised.
    pub fn subtype_suffix(&self) -> (r: Option<&[u8]>)
        ensures
            match r {
                Some(suffix) => self@.subtype_suffix == Some(suffix@),
                None => self@.subtype_suffix is None,
            },
    {
        match &self.service_subtype_suffix {
            Some(suffix) => Some(suffix.as_slice()),
            None => None,
        }
    }

    /// A copy of the service.
    pub fn duplicate(&self) -> (r: Service)
        ensures
            r@ == self@,
    {
        Service {
            service_type: self.service_type.duplicate(),
            service_name: self.service_name.duplicate(),
            service_hostname: self.service_hostname.duplicate(),
            service_id: self.service_id.duplicate(),
            service_subtype_suffix: match &self.service_subtype_suffix {
                Some(suffix) => Some(copy(suffix.as_slice())),
                None => None,
            },
            ip_addresses: copy_addresses(&self.ip_addresses),
            port: self.port,
            txt: copy_entries(&self.txt),
            ttl: self.ttl,
        }
    }

    /// Builds a DNS packet that can be sent to a client to respond to a DNS
    /// query for this service.
    pub fn dns_response(&self) -> (r: Result<DnsMessage, ServiceDnsPacketBuilderError>)
        ensures
            match r {
                Ok(message) => spec_fits(self@) && message@ == spec_response(self@),
                Err(err) => !spec_fits(self@)
                    && err == ServiceDnsPacketBuilderError::TooManyIpAddresses,
            },
    {
        if self.ip_addresses.len() > MAX_SECTION_RECORDS - 2 {
            return Err(ServiceDnsPacketBuilderError::TooManyIpAddresses);
        }
        let additional_count: u16 = (self.ip_addresses.len() + 2) as u16;
        let header = MessageHeader {
            kind: MessageKind::Response,
            authoritative: true,
            answer_count: 1,
            additional_count,
        };
        let mut answers: Vec<DnsRecord> = Vec::new();
        answers.push(
            DnsRecord {
                name: self.service_type.duplicate(),
                ttl: self.ttl,
                cache_flush: false,
                data: RecordData::Ptr(self.service_id.duplicate()),
            },
        );
        let mut additionals: Vec<DnsRecord> = Vec::new();
        let mut i: usize = 0;
        while i < self.ip_addresses.len()
            invariant
                0 <= i <= self.ip_addresses@.len(),
                additionals@.len() == i,
                forall|k: int|
                    0 <= k < i ==> (#[trigger] additionals@[k])@ == spec_address_record(
                        self@,
                        self@.ip_addresses[k],
                    ),
            decreases self.ip_addresses@.len() - i,
        {
            let data = match self.ip_addresses[i] {
                IpAddr::V4(a) => RecordData::A(a),
                IpAddr::V6(a) => RecordData::Aaaa(a),
            };
            additionals.push(
                DnsRecord {
                    name: self.service_hostname.duplicate(),
                    ttl: self.ttl,
                    cache_flush: true,
                    data,
                },
            );
            i += 1;
        }
        additionals.push(
            DnsRecord {
                name: self.service_id.duplicate(),
                ttl: self.ttl,
                cache_flush: false,
                data: RecordData::Srv {
                    priority: 0,
                    weight: 0,
                    port: self.port,
                    target: self.service_hostname.duplicate(),
                },
            },
        );
        additionals.push(
            DnsRecord {
                name: self.service_id.duplicate(),
                ttl: self.ttl,
                cache_flush: true,
                data: RecordData::Txt(copy_entries(&self.txt)),
            },
        );
        let message = DnsMessage { header, answers, additionals };
        assert(message@.answers =~= spec_response(self@).answers);
        assert(message@.additionals =~= spec_response(self@).additionals);
        Ok(message)
    }
}

/// The text `local.`.
fn local_domain() -> (r: Vec<u8>)
    ensures
        r@ == spec_local_domain(),
{
    let r: Vec<u8> = vec![108u8, 111u8, 99u8, 97u8, 108u8, 46u8];
    assert(r@ =~= spec_local_domain());
    r
}

/// The text `_sub.`.
fn sub_label() -> (r: Vec<u8>)
    ensures
        r@ == spec_sub_label(),
{
    let r: Vec<u8> = vec![95u8, 115u8, 117u8, 98u8, 46u8];
    assert(r@ =~= spec_sub_label());
    r
}

/// The text `.`.
fn dot() -> (r: Vec<u8>)
    ensures
        r@ == spec_dot(),
{
    let r: Vec<u8> = vec![46u8];
    assert(r@ =~= spec_dot());
    r
}

/// A builder for [`Service`]s.
#[derive(Debug)]
pub struct ServiceBuilder(Service);

impl View for ServiceBuilder {
    type V = ServiceView;

    closed spec fn view(&self) -> ServiceView {
        self.0@
    }
}

impl ServiceBuilder {
    /// Whether the addresses are kept as an ordered set and the names are
    /// fully qualified.
    pub open spec fn wf(&self) -> bool {
        spec_wf(self@)
    }

    /// Creates a new [`ServiceBuilder`] for a service with the given type,
    /// name, and port.
    pub fn new<T: IntoDnsName, N: IntoDnsName>(service_type: T, service_name: N, port: u16) -> (r:
        Result<Self, BadDnsNameError>)
        ensures
            match r {
                Ok(builder) => builder.wf() && spec_new_service(
                    service_type.spec_text(),
                    service_name.spec_text(),
                    port,
                ) == Some(builder@),
                Err(_) => spec_new_service(service_type.spec_text(), service_name.spec_text(), port)
                    is None,
            },
    {
        let ty = match service_type.into_fqdn() {
            Ok(name) => name,
            Err(err) => {
                return Err(err);
            },
        };
        let name = match service_name.into_fqdn() {
            Ok(name) => name,
            Err(err) => {
                return Err(err);
            },
        };
        let id_text = concat(name.text(), ty.text());
        let id = match DnsName::from_bytes(id_text.as_slice()) {
            Ok(name) => name,
            Err(err) => {
                return Err(err);
            },
        };
        let local = local_domain();
        let host_text = concat(name.text(), local.as_slice());
        let host = match DnsName::from_bytes(host_text.as_slice()) {
            Ok(name) => name,
            Err(err) => {
                return Err(err);
            },
        };
        let service = Service {
            service_type: ty,
            service_name: name,
            service_hostname: host,
            service_id: id,
            service_subtype_suffix: None,
            ip_addresses: Vec::new(),
            port,
            txt: Vec::new(),
            ttl: DEFAULT_TTL,
        };
        assert(service@.txt =~= Seq::<Seq<u8>>::empty());
        assert(service@.ip_addresses =~= Seq::<IpAddr>::empty());
        Ok(ServiceBuilder(service))
    }

    /// Sets the TTL of the service.
    pub fn ttl(self, ttl: u32) -> (r: Self)
        ensures
            r@ == (ServiceView { ttl, ..self@ }),
    {
        let mut service = self.0;
        service.ttl = ttl;
        ServiceBuilder(service)
    }

    /// Adds an IP address that the service is available on. The addresses
    /// are an ordered set: one that is there already is not added again.
    pub fn add_ip_address(self, ip_address: IpAddr) -> (r: Self)
        requires
            self.wf(),
        ensures
            r.wf(),
            forall|a: IpAddr|
                r@.ip_addresses.contains(a) <==> (self@.ip_addresses.contains(a) || a
                    == ip_address),
            r@ == (ServiceView { ip_addresses: r@.ip_addresses, ..self@ }),
    {
        let mut service = self.0;
        let ghost before = service.ip_addresses@;
        let mut i: usize = 0;
        while i < service.ip_addresses.len() && service.ip_addresses[i].precedes(&ip_address)
            invariant
                0 <= i <= service.ip_addresses@.len(),
                service.ip_addresses@ == before,
                forall|k: int| 0 <= k < i ==> before[k].rank() < ip_address.rank(),
            decreases service.ip_addresses@.len() - i,
        {
            i += 1;
        }
        let present = i < service.ip_addresses.len() && !ip_address.precedes(
            &service.ip_addresses[i],
        );
        if present {
            proof {
                lemma_rank_injective(before[i as int], ip_address);
                assert forall|a: IpAddr| before.contains(a) || a == ip_address implies before.contains(
                    a,
                ) by {
                    if a == ip_address {
                        assert(before[i as int] == a);
                    }
                }
            }
        } else {
            service.ip_addresses.insert(i, ip_address);
            proof {
                let after = service.ip_addresses@;
                assert(after == before.insert(i as int, ip_address));
                assert forall|x: int, y: int| 0 <= x < y < after.len() implies after[x].rank()
                    < after[y].rank() by {
                    if y == i {
                        assert(after[x] == before[x]);
                    } else if x == i {
                        assert(after[y] == before[y - 1]);
                        assert(before[i as int].rank() <= before[y - 1].rank());
                    } else if x < i && y > i {
                        assert(after[x] == before[x]);
                        assert(after[y] == before[y - 1]);
                    } else if x < i && y < i {
                        assert(after[x] == before[x]);
                        assert(after[y] == before[y]);
                    } else {
                        assert(after[x] == before[x - 1]);
                        assert(after[y] == before[y - 1]);
                    }
                }
                assert forall|a: IpAddr| after.contains(a) <==> (before.contains(a) || a
                    == ip_address) by {
                    if after.contains(a) {
                        let k = choose|k: int| 0 <= k < after.len() && after[k] == a;
                        if k < i {
                            assert(before[k] == a);
                        } else if k > i {
                            assert(before[k - 1] == a);
                        }
                    }
                    if before.contains(a) {
                        let k = choose|k: int| 0 <= k < before.len() && before[k] == a;
                        if k < i {
                            assert(after[k] == a);
                        } else {
                            assert(after[k + 1] == a);
                        }
                    }
                    if a == ip_address {
                        assert(after[i as int] == a);
                    }
                }
            }
        }
        ServiceBuilder(service)
    }

    /// Adds a TXT record to the service.
    pub fn add_txt<T: IntoServiceTxt>(self, record: T) -> (r: Self)
        ensures
            r@ == (ServiceView { txt: self@.txt.push(record.spec_txt()), ..self@ }),
    {
        let mut service = self.0;
        let ghost before = service.txt@;
        service.txt.push(record.into_service_txt());
        assert(spec_txt_view(service.txt@) =~= spec_txt_view(before).push(record.spec_txt()));
        ServiceBuilder(service)
    }

    /// Adds a TXT record to the service, truncating it if it is too long
    /// (more than 255 bytes).
    pub fn add_txt_truncated<T: IntoServiceTxt>(self, record: T) -> (r: Self)
        ensures
            r@ == (ServiceView { txt: self@.txt.push(spec_truncated(record.spec_txt())), ..self@ }),
    {
        let mut service = self.0;
        let ghost before = service.txt@;
        service.txt.push(record.into_service_txt_truncated());
        assert(spec_txt_view(service.txt@) =~= spec_txt_view(before).push(
            spec_truncated(record.spec_txt()),
        ));
        ServiceBuilder(service)
    }

    /// Can this service be subtyped? If so, the broadcaster will respond to
    /// queries with subtyped service types.
    pub fn can_subtype(self) -> (r: Result<Self, BadDnsNameError>)
        ensures
            match r {
                Ok(builder) => spec_subtype_suffix(self@.service_type.text).is_some() && builder@
                    == (ServiceView {
                    subtype_suffix: spec_subtype_suffix(self@.service_type.text),
                    ..self@
                }),
                Err(_) => spec_subtype_suffix(self@.service_type.text) is None,
            },
    {
        let mut service = self.0;
        let sub = sub_label();
        let sub_text = concat(sub.as_slice(), service.service_type.text());
        let sub_name = match DnsName::from_bytes(sub_text.as_slice()) {
            Ok(name) => name,
            Err(err) => {
                return Err(err);
            },
        };
        let point = dot();
        service.service_subtype_suffix = Some(concat(point.as_slice(), sub_name.text()));
        Ok(ServiceBuilder(service))
    }

    /// Builds the [`Service`]: it must have an address, and no TXT entry of
    /// more than 255 bytes.
    pub fn build(self) -> (r: Result<Service, ServiceBuilderError>)
        ensures
            match r {
                Ok(service) => spec_valid(self@) && service@ == self@,
                Err(ServiceBuilderError::MissingAdvertisementAddr) => self@.ip_addresses.len() == 0,
                Err(ServiceBuilderError::RecordTooLong) => self@.ip_addresses.len() > 0
                    && !spec_valid(self@),
            },
    {
        if self.0.ip_addresses.len() == 0 {
            return Err(ServiceBuilderError::MissingAdvertisementAddr);
        }
        let mut i: usize = 0;
        while i < self.0.txt.len()
            invariant
                0 <= i <= self.0.txt@.len(),
                self@.ip_addresses.len() > 0,
                forall|k: int| 0 <= k < i ==> #[trigger] self@.txt[k].len() <= TXT_MAX_LEN,
            decreases self.0.txt@.len() - i,
        {
            if self.0.txt[i].len() > TXT_MAX_LEN {
                assert(self@.txt[i as int].len() > TXT_MAX_LEN);
                return Err(ServiceBuilderError::RecordTooLong);
            }
            i += 1;
        }
        Ok(self.0)
    }
}

/// The response of a service has exactly one answer, which is a PTR record
/// from the service type to the instance, and two more additional records
/// than the service has addresses: one address record for each address, of
/// the family of that address and at the host's name, then one SRV record
/// and one TXT record at the instance's name.
pub proof fn lemma_response_shape(service: ServiceView)
    ensures
        spec_response(service).answers.len() == 1,
        spec_response(service).answers[0].kind() == RecordKind::Ptr,
        spec_response(service).answers[0].name == service.service_type,
        spec_response(service).answers[0].data == RecordDataView::Ptr(service.service_id),
        spec_response(service).additionals.len() == service.ip_addresses.len() + 2,
        forall|i: int|
            0 <= i < service.ip_addresses.len() ==> {
                let record = #[trigger] spec_response(service).additionals[i];
                &&& record.name == service.service_hostname
                &&& record.cache_flush
                &&& record.kind() == if service.ip_addresses[i] is V4 {
                    RecordKind::A
                } else {
                    RecordKind::Aaaa
                }
            },
        spec_response(service).additionals[service.ip_addresses.len() as int] == spec_srv_record(
            service,
        ),
        spec_response(service).additionals[service.ip_addresses.len() as int + 1] == spec_txt_record(
            service,
        ),
        spec_srv_record(service).kind() == RecordKind::Srv,
        spec_txt_record(service).kind() == RecordKind::Txt,
{
}

/// Every record of a service's response, answer or additional, carries the
/// time to live of the service.
pub proof fn lemma_response_ttl(service: ServiceView)
    ensures
        forall|i: int|
            0 <= i < spec_response(service).answers.len() ==> (#[trigger] spec_response(
                service,
            ).answers[i]).ttl == service.ttl,
        forall|i: int|
            0 <= i < spec_response(service).additionals.len() ==> (#[trigger] spec_response(
                service,
            ).additionals[i]).ttl == service.ttl,
{
}

/// A builder that was just made gives its service the default time to live.
pub proof fn lemma_default_ttl(service_type: Seq<u8>, service_name: Seq<u8>, port: u16)
    ensures
        spec_new_service(service_type, service_name, port) matches Some(service) ==> service.ttl
            == 120,
{
}

/// A service together with the response that answers questions about it,
/// as the broadcaster keeps it.
#[derive(Debug)]
pub struct ServiceDnsResponse {
    service: Service,
    dns_response: DnsMessage,
    packet: Option<Vec<u8>>,
}

/// A service with its response, as mathematical values.
pub struct ServiceRecordView {
    /// The service.
    pub service: ServiceView,
    /// The response, as values.
    pub response: MessageView,
    /// The response as it goes on the wire, or `None` where the DNS library
    /// could not encode it: for such a service nothing is sent.
    pub packet: Option<Seq<u8>>,
}

impl View for ServiceDnsResponse {
    type V = ServiceRecordView;

    closed spec fn view(&self) -> ServiceRecordView {
        ServiceRecordView {
            service: self.service@,
            response: self.dns_response@,
            packet: match self.packet {
                Some(bytes) => Some(bytes@),
                None => None,
            },
        }
    }
}

/// What the broadcaster keeps for a service: the service and the encoding
/// of its response.
pub open spec fn spec_service_record(service: ServiceView) -> ServiceRecordView {
    ServiceRecordView {
        service,
        response: spec_response(service),
        packet: spec_encode(spec_response(service)),
    }
}

impl ServiceDnsResponse {
    /// Whether the record holds the response of its service and that
    /// response's encoding.
    pub open spec fn wf(&self) -> bool {
        &&& spec_fits(self@.service)
        &&& self@ == spec_service_record(self@.service)
    }

    /// Computes the response of a service and keeps both.
    pub fn try_from(service: Service) -> (r: Result<Self, ServiceDnsPacketBuilderError>)
        ensures
            match r {
                Ok(record) => spec_fits(service@) && record.wf() && record@ == spec_service_record(
                    service@,
                ),
                Err(err) => !spec_fits(service@) && err
                    == ServiceDnsPacketBuilderError::TooManyIpAddresses,
            },
    {
        match service.dns_response() {
            Ok(dns_response) => {
                let packet = dns_response.to_bytes();
                proof {
                    lemma_response_shape(service@);
                }
                Ok(ServiceDnsResponse { service, dns_response, packet })
            },
            Err(err) => Err(err),
        }
    }

    /// The service.
    pub fn service(&self) -> (r: &Service)
        ensures
            r@ == self@.service,
    {
        &self.service
    }

    /// The response, as values.
    pub fn dns_response(&self) -> (r: &DnsMessage)
        ensures
            r@ == self@.response,
    {
        &self.dns_response
    }

    /// The response as it goes on the wire.
    pub fn packet(&self) -> (r: Option<&[u8]>)
        ensures
            match r {
                Some(bytes) => self@.packet == Some(bytes@),
                None => self@.packet is None,
            },
    {
        match &self.packet {
            Some(bytes) => Some(bytes.as_slice()),
            None => None,
        }
    }
}

} // verus!
