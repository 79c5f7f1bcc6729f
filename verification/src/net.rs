//! Networking utilities and abstractions: addresses as numbers and the
//! selection of the interfaces a multicast socket works on.

use crate::bytes::bytes_eq;
use crate::errors::{IoError, IoErrorKind};
use vstd::prelude::*;
use vstd::string::StringSliceAdditionalSpecFns;
use vstd::utf8::encode_utf8;

verus! {

/// An IPv4 address, held as its 32 bits in network order: the first octet is
/// the most significant byte.
#[derive(Clone, Copy, Debug, PartialEq, Eq, PartialOrd, Ord, Hash, Structural)]
pub struct Ipv4Addr {
    /// The address as one number.
    pub bits: u32,
}

/// The number that four octets make, the first being the most significant.
pub open spec fn spec_v4_bits(a: u8, b: u8, c: u8, d: u8) -> int {
    a as int * 16777216 + b as int * 65536 + c as int * 256 + d as int
}

impl Ipv4Addr {
    /// The address `a.b.c.d`.
    pub fn new(a: u8, b: u8, c: u8, d: u8) -> (r: Self)
        ensures
            r.bits as int == spec_v4_bits(a, b, c, d),
    {
        let hi: u32 = a as u32 * 16777216 + b as u32 * 65536;
        let lo: u32 = c as u32 * 256 + d as u32;
        Ipv4Addr { bits: hi + lo }
    }

    /// The unspecified address `0.0.0.0`, which lets the system pick the
    /// interface.
    pub fn unspecified() -> (r: Self)
        ensures
            r.bits == 0,
    {
        Ipv4Addr { bits: 0 }
    }

    /// The four octets, most significant first.
    pub fn octets(&self) -> (r: [u8; 4])
        ensures
            spec_v4_bits(r[0], r[1], r[2], r[3]) == self.bits as int,
    {
        let a: u8 = (self.bits / 16777216) as u8;
        let b: u8 = ((self.bits / 65536) % 256) as u8;
        let c: u8 = ((self.bits / 256) % 256) as u8;
        let d: u8 = (self.bits % 256) as u8;
        [a, b, c, d]
    }
}

/// An IPv6 address, held as its 128 bits in network order.
#[derive(Clone, Copy, Debug, PartialEq, Eq, PartialOrd, Ord, Hash, Structural)]
pub struct Ipv6Addr {
    /// The address as one number.
    pub bits: u128,
}

/// The number that two 16-bit groups make, the first being the upper half.
pub open spec fn spec_pair16(hi: u16, lo: u16) -> int {
    hi as int * 65536 + lo as int
}

/// The number that eight 16-bit groups make, the first being the most
/// significant.
pub open spec fn spec_v6_bits(s: [u16; 8]) -> int {
    ((spec_pair16(s[0], s[1]) * 4294967296 + spec_pair16(s[2], s[3])) * 4294967296 + spec_pair16(
        s[4],
        s[5],
    )) * 4294967296 + spec_pair16(s[6], s[7])
}

impl Ipv6Addr {
    /// The address whose eight 16-bit groups are `segments`, in the order in
    /// which they are written.
    pub fn new(segments: [u16; 8]) -> (r: Self)
        ensures
            r.bits as int == spec_v6_bits(segments),
    {
        let first: u128 = segments[0] as u128 * 65536 + segments[1] as u128;
        let second: u128 = segments[2] as u128 * 65536 + segments[3] as u128;
        let third: u128 = segments[4] as u128 * 65536 + segments[5] as u128;
        let fourth: u128 = segments[6] as u128 * 65536 + segments[7] as u128;
        let upper: u128 = first * 4294967296 + second;
        let most: u128 = upper * 4294967296 + third;
        Ipv6Addr { bits: most * 4294967296 + fourth }
    }

    /// The unspecified address `::`.
    pub fn unspecified() -> (r: Self)
        ensures
            r.bits == 0,
    {
        Ipv6Addr { bits: 0 }
    }
}

/// An IP address of either family.
#[derive(Clone, Copy, Debug, PartialEq, Eq, PartialOrd, Ord, Hash, Structural)]
pub enum IpAddr {
    /// An IPv4 address.
    V4(Ipv4Addr),
    /// An IPv6 address.
    V6(Ipv6Addr),
}

impl IpAddr {
    /// Whether this is an IPv4 address.
    pub open spec fn spec_is_ipv4(&self) -> bool {
        *self is V4
    }

    /// The place of the address in the order of all addresses: every IPv4
    /// address comes before every IPv6 address, and within a family the
    /// addresses are ordered as numbers.
    pub open spec fn rank(self) -> int {
        match self {
            IpAddr::V4(a) => a.bits as int,
            IpAddr::V6(a) => 4294967296 + a.bits as int,
        }
    }

    #[verifier::when_used_as_spec(spec_is_ipv4)]
    pub fn is_ipv4(&self) -> (r: bool)
        ensures
            r == self.spec_is_ipv4(),
    {
        matches!(self, IpAddr::V4(_))
    }

    /// Whether `self` comes strictly before `other` in the order of addresses.
    pub fn precedes(&self, other: &IpAddr) -> (r: bool)
        ensures
            r == (self.rank() < other.rank()),
    {
        match (self, other) {
            (IpAddr::V4(a), IpAddr::V4(b)) => a.bits < b.bits,
            (IpAddr::V4(_), IpAddr::V6(_)) => true,
            (IpAddr::V6(_), IpAddr::V4(_)) => false,
            (IpAddr::V6(a), IpAddr::V6(b)) => a.bits < b.bits,
        }
    }
}

/// Two addresses of equal rank are the same address.
pub proof fn lemma_rank_injective(a: IpAddr, b: IpAddr)
    requires
        a.rank() == b.rank(),
    ensures
        a == b,
{
}

/// An IPv4 address and a port.
#[derive(Clone, Copy, Debug, PartialEq, Eq, Hash, Structural)]
pub struct SocketAddrV4 {
    /// The host.
    pub ip: Ipv4Addr,
    /// The port.
    pub port: u16,
}

/// An IPv6 address, a port, and what IPv6 adds to them.
#[derive(Clone, Copy, Debug, PartialEq, Eq, Hash, Structural)]
pub struct SocketAddrV6 {
    /// The host.
    pub ip: Ipv6Addr,
    /// The port.
    pub port: u16,
    /// The flow label.
    pub flowinfo: u32,
    /// The interface a link-local address belongs to.
    pub scope_id: u32,
}

/// The address a datagram came from or goes to.
#[derive(Clone, Copy, Debug, PartialEq, Eq, Hash, Structural)]
pub enum SocketAddr {
    /// An address of the IPv4 family.
    V4(SocketAddrV4),
    /// An address of the IPv6 family.
    V6(SocketAddrV6),
}

impl SocketAddr {
    /// Whether the address belongs to the IPv4 family.
    pub open spec fn spec_is_ipv4(&self) -> bool {
        *self is V4
    }

    /// The port of the address.
    pub open spec fn spec_port(&self) -> u16 {
        match *self {
            SocketAddr::V4(a) => a.port,
            SocketAddr::V6(a) => a.port,
        }
    }

    /// The address made of a host and a port, with no flow label and no
    /// scope.
    pub fn new(ip: IpAddr, port: u16) -> (r: Self)
        ensures
            r == match ip {
                IpAddr::V4(a) => SocketAddr::V4(SocketAddrV4 { ip: a, port }),
                IpAddr::V6(a) => SocketAddr::V6(
                    SocketAddrV6 { ip: a, port, flowinfo: 0, scope_id: 0 },
                ),
            },
    {
        match ip {
            IpAddr::V4(a) => SocketAddr::V4(SocketAddrV4 { ip: a, port }),
            IpAddr::V6(a) => SocketAddr::V6(SocketAddrV6 { ip: a, port, flowinfo: 0, scope_id: 0 }),
        }
    }

    #[verifier::when_used_as_spec(spec_is_ipv4)]
    pub fn is_ipv4(&self) -> (r: bool)
        ensures
            r == self.spec_is_ipv4(),
    {
        matches!(self, SocketAddr::V4(_))
    }

    /// The port of the address.
    #[verifier::when_used_as_spec(spec_port)]
    pub fn port(&self) -> (r: u16)
        ensures
            r == self.spec_port(),
    {
        match self {
            SocketAddr::V4(a) => a.port,
            SocketAddr::V6(a) => a.port,
        }
    }
}

/// A wrapper around a raw IPv6 interface index.
///
/// With IPv6, interfaces are identified by their index, a number that is
/// never zero: zero stands for "no interface chosen".
#[derive(Clone, Copy, Debug, PartialEq, Eq, PartialOrd, Ord, Hash)]
pub struct Ipv6Interface {
    index: u32,
}

impl Ipv6Interface {
    #[verifier::type_invariant]
    spec fn nonzero(self) -> bool {
        self.index != 0
    }

    /// The raw index.
    pub closed spec fn spec_index(self) -> u32 {
        self.index
    }

    /// Creates a new `Ipv6Interface` from the given raw interface index.
    pub fn from_raw(raw: u32) -> (r: Self)
        requires
            raw != 0,
        ensures
            r.spec_index() == raw,
    {
        Ipv6Interface { index: raw }
    }

    /// The interface with the index that the system gave for a name, where
    /// zero is the system's way of saying that it knows no such interface.
    pub fn from_index(raw: u32) -> (r: Option<Self>)
        ensures
            raw == 0 <==> r is None,
            r matches Some(iface) ==> iface.spec_index() == raw,
    {
        if raw == 0 {
            None
        } else {
            Some(Ipv6Interface { index: raw })
        }
    }

    /// Returns the raw interface index.
    ///
    /// This will always be a non-zero value.
    pub fn as_u32(&self) -> (r: u32)
        ensures
            r == self.spec_index(),
            r != 0,
    {
        proof {
            use_type_invariant(self);
        }
        self.index
    }
}

/// The version of IP to use.
#[derive(Clone, Copy, Debug, PartialEq, Eq, Structural)]
pub enum IpVersion {
    /// Use IPv4.
    V4,
    /// Use IPv6.
    V6,
    /// Use both IPv4 and IPv6.
    Both,
}

impl IpVersion {
    /// Whether this selection asks for an IPv4 socket.
    pub open spec fn spec_wants_v4(&self) -> bool {
        *self != IpVersion::V6
    }

    /// Whether this selection asks for an IPv6 socket.
    pub open spec fn spec_wants_v6(&self) -> bool {
        *self != IpVersion::V4
    }

    #[verifier::when_used_as_spec(spec_wants_v4)]
    pub fn wants_v4(&self) -> (r: bool)
        ensures
            r == self.spec_wants_v4(),
    {
        !matches!(self, IpVersion::V6)
    }

    #[verifier::when_used_as_spec(spec_wants_v6)]
    pub fn wants_v6(&self) -> (r: bool)
        ensures
            r == self.spec_wants_v6(),
    {
        !matches!(self, IpVersion::V4)
    }
}

/// The interface to use for multicast.
#[derive(Clone, Debug, PartialEq, Eq)]
pub enum TargetInterface<Addr> {
    /// Let the OS decide which interface to use.
    Default,
    /// Use as many interfaces as possible, falling back to `Default` if none
    /// are available.
    All,
    /// Use the given interface.
    Specific(Addr),
    /// Use the given interfaces. An interface named twice counts once.
    Multi(Vec<Addr>),
}

impl<Addr> TargetInterface<Addr> {
    /// Whether the selection needs the interfaces that the system lists:
    /// it does where all interfaces are selected.
    pub fn lists_interfaces(&self) -> (r: bool)
        ensures
            r == (*self is All),
    {
        matches!(self, TargetInterface::All)
    }
}

/// A `TargetInterface` for IPv4.
pub type TargetInterfaceV4 = TargetInterface<Ipv4Addr>;

/// A `TargetInterface` for IPv6.
pub type TargetInterfaceV6 = TargetInterface<Ipv6Interface>;

/// What identifies an interface to a socket of one family: a number that no
/// two interfaces of that family share.
pub trait InterfaceId: Copy {
    /// The number that stands for the interface.
    spec fn id(&self) -> nat;

    /// The number that stands for the interface, computed.
    fn exec_id(&self) -> (r: u64)
        ensures
            r as nat == self.id(),
    ;
}

impl InterfaceId for Ipv4Addr {
    open spec fn id(&self) -> nat {
        self.bits as nat
    }

    fn exec_id(&self) -> (r: u64) {
        self.bits as u64
    }
}

impl InterfaceId for Ipv6Interface {
    open spec fn id(&self) -> nat {
        self.spec_index() as nat
    }

    fn exec_id(&self) -> (r: u64) {
        self.index as u64
    }
}

/// The port used for mDNS.
pub const MDNS_PORT: u16 = 5353;

/// The IPv4 multicast address used for mDNS, `224.0.0.251`.
pub fn mdns_v4_ip() -> (r: Ipv4Addr)
    ensures
        r.bits as int == spec_v4_bits(224, 0, 0, 251),
{
    Ipv4Addr::new(224, 0, 0, 251)
}

/// The IPv6 multicast address used for mDNS, `ff02::fb`.
pub fn mdns_v6_ip() -> (r: Ipv6Addr)
    ensures
        r.bits as int == spec_v6_bits([0xff02u16, 0, 0, 0, 0, 0, 0, 0xfb]),
{
    Ipv6Addr::new([0xff02u16, 0, 0, 0, 0, 0, 0, 0xfb])
}

/// One address of one interface, as the system lists it, as mathematical
/// values.
pub struct InterfaceInfoView {
    /// The name of the interface.
    pub name: Seq<char>,
    /// The address.
    pub ip: IpAddr,
    /// The IPv6 index that the system gives for the name; zero where it
    /// gives none.
    pub index: u32,
    /// Whether the interface is a loopback interface.
    pub loopback: bool,
}

/// One address of one interface, as the system lists it.
#[derive(Clone, Debug)]
pub struct InterfaceInfo {
    /// The name of the interface.
    pub name: String,
    /// The address.
    pub ip: IpAddr,
    /// The IPv6 index that the system gives for the name; zero where it
    /// gives none.
    pub index: u32,
    /// Whether the interface is a loopback interface.
    pub loopback: bool,
}

impl View for InterfaceInfo {
    type V = InterfaceInfoView;

    open spec fn view(&self) -> InterfaceInfoView {
        InterfaceInfoView {
            name: self.name@,
            ip: self.ip,
            index: self.index,
            loopback: self.loopback,
        }
    }
}

/// The entries of a listing as mathematical values.
pub open spec fn spec_listing(interfaces: Seq<InterfaceInfo>) -> Seq<InterfaceInfoView> {
    Seq::new(interfaces.len(), |i: int| interfaces[i]@)
}

/// The first entry of a listing, from place `from` on, that has an index
/// and meets a condition.
pub open spec fn spec_first_entry(
    listing: Seq<InterfaceInfoView>,
    wanted: spec_fn(InterfaceInfoView) -> bool,
    from: int,
) -> Option<InterfaceInfoView>
    decreases listing.len() - from,
{
    if from < 0 || from >= listing.len() {
        None
    } else if listing[from].index != 0 && wanted(listing[from]) {
        Some(listing[from])
    } else {
        spec_first_entry(listing, wanted, from + 1)
    }
}

/// The IPv6 addresses that a listing gives for an index, in its order.
pub open spec fn spec_addrs(listing: Seq<InterfaceInfoView>, index: u32) -> Seq<Ipv6Addr>
    decreases listing.len(),
{
    if listing.len() == 0 {
        Seq::empty()
    } else {
        let front = spec_addrs(listing.drop_last(), index);
        match listing.last().ip {
            IpAddr::V6(addr) => if listing.last().index == index {
                front.push(addr)
            } else {
                front
            },
            IpAddr::V4(_) => front,
        }
    }
}

/// The IPv4 addresses of the interfaces of a listing that are no loopback
/// interfaces, in its order.
pub open spec fn spec_candidates_v4(listing: Seq<InterfaceInfoView>) -> Seq<Ipv4Addr>
    decreases listing.len(),
{
    if listing.len() == 0 {
        Seq::empty()
    } else {
        let front = spec_candidates_v4(listing.drop_last());
        match listing.last().ip {
            IpAddr::V4(addr) => if !listing.last().loopback {
                front.push(addr)
            } else {
                front
            },
            IpAddr::V6(_) => front,
        }
    }
}

/// The indexes of the interfaces of a listing that have an IPv6 address,
/// are no loopback interfaces and have an index, in its order.
pub open spec fn spec_candidates_v6(listing: Seq<InterfaceInfoView>) -> Seq<u32>
    decreases listing.len(),
{
    if listing.len() == 0 {
        Seq::empty()
    } else {
        let front = spec_candidates_v6(listing.drop_last());
        let last = listing.last();
        if last.ip is V6 && !last.loopback && last.index != 0 {
            front.push(last.index)
        } else {
            front
        }
    }
}

/// The raw indexes of a list of interfaces.
pub open spec fn spec_indexes(ifaces: Seq<Ipv6Interface>) -> Seq<u32> {
    Seq::new(ifaces.len(), |i: int| ifaces[i].spec_index())
}

/// The listing that counts where the system may have failed to list its
/// interfaces: an empty one in that case.
pub open spec fn spec_listing_or_empty(listing: Result<Vec<InterfaceInfo>, IoError>) -> Seq<
    InterfaceInfoView,
> {
    match listing {
        Ok(interfaces) => spec_listing(interfaces@),
        Err(_) => Seq::empty(),
    }
}

/// The IPv4 interfaces that a socket may join where all are selected. A
/// listing that failed gives none.
pub fn candidates_v4(listing: &Result<Vec<InterfaceInfo>, IoError>) -> (r: Vec<Ipv4Addr>)
    ensures
        r@ == spec_candidates_v4(spec_listing_or_empty(*listing)),
{
    let mut out: Vec<Ipv4Addr> = Vec::new();
    match listing {
        Ok(interfaces) => {
            let ghost all = spec_listing(interfaces@);
            let mut i: usize = 0;
            while i < interfaces.len()
                invariant
                    0 <= i <= interfaces@.len(),
                    all == spec_listing(interfaces@),
                    out@ == spec_candidates_v4(all.subrange(0, i as int)),
                decreases interfaces@.len() - i,
            {
                proof {
                    assert(all.subrange(0, i + 1).drop_last() =~= all.subrange(0, i as int));
                    assert(all.subrange(0, i + 1).last() == interfaces@[i as int]@);
                }
                match interfaces[i].ip {
                    IpAddr::V4(addr) => {
                        if !interfaces[i].loopback {
                            out.push(addr);
                        }
                    },
                    IpAddr::V6(_) => {},
                }
                i += 1;
            }
            assert(all.subrange(0, i as int) =~= all);
        },
        Err(_) => {},
    }
    out
}

/// The IPv6 interfaces that a socket may join where all are selected. A
/// listing that failed gives none.
pub fn candidates_v6(listing: &Result<Vec<InterfaceInfo>, IoError>) -> (r: Vec<Ipv6Interface>)
    ensures
        spec_indexes(r@) == spec_candidates_v6(spec_listing_or_empty(*listing)),
{
    let mut out: Vec<Ipv6Interface> = Vec::new();
    match listing {
        Ok(interfaces) => {
            let ghost all = spec_listing(interfaces@);
            let mut i: usize = 0;
            while i < interfaces.len()
                invariant
                    0 <= i <= interfaces@.len(),
                    all == spec_listing(interfaces@),
                    spec_indexes(out@) == spec_candidates_v6(all.subrange(0, i as int)),
                decreases interfaces@.len() - i,
            {
                proof {
                    assert(all.subrange(0, i + 1).drop_last() =~= all.subrange(0, i as int));
                    assert(all.subrange(0, i + 1).last() == interfaces@[i as int]@);
                }
                let ghost before = spec_indexes(out@);
                let is_v6 = !interfaces[i].ip.is_ipv4();
                if is_v6 && !interfaces[i].loopback && interfaces[i].index != 0 {
                    out.push(Ipv6Interface { index: interfaces[i].index });
                    assert(spec_indexes(out@) =~= before.push(interfaces@[i as int].index));
                }
                i += 1;
            }
            assert(all.subrange(0, i as int) =~= all);
        },
        Err(_) => {
            assert(spec_indexes(out@) =~= Seq::<u32>::empty());
        },
    }
    out
}

/// The address to bind a socket of one IPv6 interface to, where the system
/// wants such a socket bound to its interface: the only address of the
/// interface, if it has exactly one.
pub fn single_address(addrs: &Vec<Ipv6Addr>) -> (r: Option<Ipv6Addr>)
    ensures
        r == if addrs@.len() == 1 {
            Some(addrs@[0])
        } else {
            None
        },
{
    if addrs.len() == 1 {
        Some(addrs[0])
    } else {
        None
    }
}

/// The text of the error for an interface that is not there.
pub open spec fn spec_not_found_message() -> Seq<char> {
    "Interface not found"@
}

impl Ipv6Interface {
    /// Attempts to resolve the interface index from the given interface
    /// name: the index of the first entry of the listing that has this name
    /// and an index.
    pub fn from_name(name: &str, interfaces: &Vec<InterfaceInfo>) -> (r: Result<Self, IoError>)
        ensures
            match r {
                Ok(iface) => spec_first_entry(
                    spec_listing(interfaces@),
                    |e: InterfaceInfoView| encode_utf8(e.name) == encode_utf8(name@),
                    0,
                ) matches Some(entry) && entry.index == iface.spec_index(),
                Err(err) => spec_first_entry(
                    spec_listing(interfaces@),
                    |e: InterfaceInfoView| encode_utf8(e.name) == encode_utf8(name@),
                    0,
                ) is None && err.kind == IoErrorKind::NotFound && err.message@
                    == spec_not_found_message(),
            },
    {
        let ghost all = spec_listing(interfaces@);
        let ghost wanted = |e: InterfaceInfoView| encode_utf8(e.name) == encode_utf8(name@);
        let mut i: usize = 0;
        while i < interfaces.len()
            invariant
                0 <= i <= interfaces@.len(),
                all == spec_listing(interfaces@),
                wanted == (|e: InterfaceInfoView| encode_utf8(e.name) == encode_utf8(name@)),
                spec_first_entry(all, wanted, 0) == spec_first_entry(all, wanted, i as int),
            decreases interfaces@.len() - i,
        {
            assert(all[i as int] == interfaces@[i as int]@);
            let same = bytes_eq(interfaces[i].name.as_str().as_bytes(), name.as_bytes());
            if same && interfaces[i].index != 0 {
                return Ok(Ipv6Interface { index: interfaces[i].index });
            }
            i += 1;
        }
        Err(IoError::new(IoErrorKind::NotFound, "Interface not found"))
    }

    /// Attempts to resolve the interface index from the given interface
    /// address: the index of the first entry of the listing that has this
    /// address and an index.
    pub fn from_addr(addr: &Ipv6Addr, interfaces: &Vec<InterfaceInfo>) -> (r: Result<Self, IoError>)
        ensures
            match r {
                Ok(iface) => spec_first_entry(
                    spec_listing(interfaces@),
                    |e: InterfaceInfoView| e.ip == IpAddr::V6(*addr),
                    0,
                ) matches Some(entry) && entry.index == iface.spec_index(),
                Err(err) => spec_first_entry(
                    spec_listing(interfaces@),
                    |e: InterfaceInfoView| e.ip == IpAddr::V6(*addr),
                    0,
                ) is None && err.kind == IoErrorKind::NotFound && err.message@
                    == spec_not_found_message(),
            },
    {
        let ghost all = spec_listing(interfaces@);
        let ghost wanted = |e: InterfaceInfoView| e.ip == IpAddr::V6(*addr);
        let mut i: usize = 0;
        while i < interfaces.len()
            invariant
                0 <= i <= interfaces@.len(),
                all == spec_listing(interfaces@),
                wanted == (|e: InterfaceInfoView| e.ip == IpAddr::V6(*addr)),
                spec_first_entry(all, wanted, 0) == spec_first_entry(all, wanted, i as int),
            decreases interfaces@.len() - i,
        {
            assert(all[i as int] == interfaces@[i as int]@);
            let matches = match interfaces[i].ip {
                IpAddr::V6(found) => found.bits == addr.bits,
                IpAddr::V4(_) => false,
            };
            if matches && interfaces[i].index != 0 {
                return Ok(Ipv6Interface { index: interfaces[i].index });
            }
            i += 1;
        }
        Err(IoError::new(IoErrorKind::NotFound, "Interface not found"))
    }

    /// Returns the IPv6 addresses of the interface, as the listing has
    /// them.
    pub fn addrs(&self, interfaces: &Vec<InterfaceInfo>) -> (r: Vec<Ipv6Addr>)
        ensures
            r@ == spec_addrs(spec_listing(interfaces@), self.spec_index()),
    {
        let ghost all = spec_listing(interfaces@);
        let mut out: Vec<Ipv6Addr> = Vec::new();
        let mut i: usize = 0;
        while i < interfaces.len()
            invariant
                0 <= i <= interfaces@.len(),
                all == spec_listing(interfaces@),
                out@ == spec_addrs(all.subrange(0, i as int), self.spec_index()),
            decreases interfaces@.len() - i,
        {
            proof {
                assert(all.subrange(0, i + 1).drop_last() =~= all.subrange(0, i as int));
                assert(all.subrange(0, i + 1).last() == interfaces@[i as int]@);
            }
            match interfaces[i].ip {
                IpAddr::V6(addr) => {
                    if interfaces[i].index == self.index {
                        out.push(addr);
                    }
                },
                IpAddr::V4(_) => {},
            }
            i += 1;
        }
        assert(all.subrange(0, i as int) =~= all);
        out
    }

    /// Returns the name of the interface: that of the first entry of the
    /// listing that has an IPv6 address and this index.
    pub fn name(&self, interfaces: &Vec<InterfaceInfo>) -> (r: Result<String, IoError>)
        ensures
            match r {
                Ok(name) => spec_first_entry(
                    spec_listing(interfaces@),
                    |e: InterfaceInfoView| e.ip is V6 && e.index == self.spec_index(),
                    0,
                ) matches Some(entry) && entry.name == name@,
                Err(err) => spec_first_entry(
                    spec_listing(interfaces@),
                    |e: InterfaceInfoView| e.ip is V6 && e.index == self.spec_index(),
                    0,
                ) is None && err.kind == IoErrorKind::NotFound && err.message@
                    == spec_not_found_message(),
            },
    {
        let ghost all = spec_listing(interfaces@);
        let ghost wanted = |e: InterfaceInfoView| e.ip is V6 && e.index == self.spec_index();
        proof {
            use_type_invariant(self);
        }
        let mut i: usize = 0;
        while i < interfaces.len()
            invariant
                0 <= i <= interfaces@.len(),
                self.spec_index() != 0,
                all == spec_listing(interfaces@),
                wanted == (|e: InterfaceInfoView| e.ip is V6 && e.index == self.spec_index()),
                spec_first_entry(all, wanted, 0) == spec_first_entry(all, wanted, i as int),
            decreases interfaces@.len() - i,
        {
            assert(all[i as int] == interfaces@[i as int]@);
            let is_v6 = !interfaces[i].ip.is_ipv4();
            if is_v6 && interfaces[i].index == self.index {
                return Ok(interfaces[i].name.clone());
            }
            i += 1;
        }
        Err(IoError::new(IoErrorKind::NotFound, "Interface not found"))
    }
}

} // verus!
