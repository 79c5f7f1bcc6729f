//! The multicast socket layer, as far as it decides: which interfaces a
//! socket joins, how it sends to the group, and what becomes of the
//! outcomes of its two families.

use crate::errors::{IoError, IoErrorKind, MultiIpIoError};
use crate::net::{
    InterfaceId, IpVersion, Ipv4Addr, Ipv6Interface, SocketAddr, TargetInterface,
    TargetInterfaceV4, TargetInterfaceV6,
};
use vstd::prelude::*;

verus! {

/// What it takes to open the sockets of a broadcaster or a browser.
#[derive(Debug)]
pub struct SocketSettings {
    /// Whether what is sent to the group comes back to the sender and to
    /// other sockets of this host.
    pub loopback: bool,
    /// The families to open a socket for.
    pub ip_version: IpVersion,
    /// The interfaces of the IPv4 socket.
    pub interface_v4: TargetInterfaceV4,
    /// The interfaces of the IPv6 socket.
    pub interface_v6: TargetInterfaceV6,
}

/// One of the two families of IP.
#[derive(Clone, Copy, Debug, PartialEq, Eq, Structural)]
pub enum Family {
    /// IPv4.
    V4,
    /// IPv6.
    V6,
}

/// The error of a family's socket, filed under that family.
pub open spec fn spec_family_error(family: Family, err: IoError) -> MultiIpIoError {
    match family {
        Family::V4 => MultiIpIoError::V4(err),
        Family::V6 => MultiIpIoError::V6(err),
    }
}

/// Files the error of a family's socket under that family.
pub fn family_error(family: Family, err: IoError) -> (r: MultiIpIoError)
    ensures
        r == spec_family_error(family, err),
{
    match family {
        Family::V4 => MultiIpIoError::V4(err),
        Family::V6 => MultiIpIoError::V6(err),
    }
}

/// Whether no interface occurs twice in a list.
pub open spec fn spec_distinct_ifaces<Iface: InterfaceId>(ifaces: Seq<Iface>) -> bool {
    forall|i: int, j: int|
        0 <= i < j < ifaces.len() ==> (#[trigger] ifaces[i]).id() != (#[trigger] ifaces[j]).id()
}

/// Whether an interface occurs in a list.
pub open spec fn spec_has_iface<Iface: InterfaceId>(ifaces: Seq<Iface>, iface: Iface) -> bool {
    exists|k: int| 0 <= k < ifaces.len() && (#[trigger] ifaces[k]).id() == iface.id()
}

/// A list without what it repeats: of each interface the first occurrence,
/// in the order of the list.
pub open spec fn spec_dedup<Iface: InterfaceId>(ifaces: Seq<Iface>) -> Seq<Iface>
    decreases ifaces.len(),
{
    if ifaces.len() == 0 {
        Seq::empty()
    } else {
        let front = spec_dedup(ifaces.drop_last());
        if spec_has_iface(front, ifaces.last()) {
            front
        } else {
            front.push(ifaces.last())
        }
    }
}

/// A list without repetitions holds each interface of the list once, and
/// nothing else.
pub proof fn lemma_dedup<Iface: InterfaceId>(ifaces: Seq<Iface>)
    ensures
        spec_distinct_ifaces(spec_dedup(ifaces)),
        spec_dedup(ifaces).len() <= ifaces.len(),
        forall|x: Iface| spec_has_iface(spec_dedup(ifaces), x) <==> spec_has_iface(ifaces, x),
    decreases ifaces.len(),
{
    if ifaces.len() > 0 {
        let front = ifaces.drop_last();
        let last = ifaces.last();
        lemma_dedup(front);
        let d = spec_dedup(front);
        let r = spec_dedup(ifaces);
        assert forall|x: Iface| spec_has_iface(r, x) <==> spec_has_iface(ifaces, x) by {
            if spec_has_iface(r, x) {
                let k = choose|k: int| 0 <= k < r.len() && (#[trigger] r[k]).id() == x.id();
                if k < d.len() {
                    assert(r[k] == d[k]);
                    assert(d[k].id() == x.id());
                    assert(spec_has_iface(d, x));
                    assert(spec_has_iface(front, x));
                    let m = choose|m: int| 0 <= m < front.len() && (#[trigger] front[m]).id() == x.id();
                    assert(ifaces[m] == front[m]);
                } else {
                    assert(ifaces[ifaces.len() - 1].id() == x.id());
                }
            }
            if spec_has_iface(ifaces, x) {
                let m = choose|m: int| 0 <= m < ifaces.len() && (#[trigger] ifaces[m]).id() == x.id();
                if m < front.len() {
                    assert(front[m] == ifaces[m]);
                    assert(spec_has_iface(front, x));
                    let k = choose|k: int| 0 <= k < d.len() && (#[trigger] d[k]).id() == x.id();
                    assert(r[k] == d[k]);
                } else if spec_has_iface(d, last) {
                    let k = choose|k: int| 0 <= k < d.len() && (#[trigger] d[k]).id() == last.id();
                    assert(r[k].id() == x.id());
                } else {
                    assert(r[d.len() as int].id() == x.id());
                }
            }
        }
        if !spec_has_iface(d, last) {
            assert forall|i: int, j: int| 0 <= i < j < r.len() implies (#[trigger] r[i]).id() != (
            #[trigger] r[j]).id() by {
                if j < d.len() {
                    assert(r[i] == d[i] && r[j] == d[j]);
                } else {
                    assert(r[i] == d[i]);
                }
            }
        }
    }
}

/// Whether an interface occurs in a list.
pub fn has_iface<Iface: InterfaceId>(ifaces: &Vec<Iface>, iface: &Iface) -> (r: bool)
    ensures
        r == spec_has_iface(ifaces@, *iface),
{
    let id = iface.exec_id();
    let mut i: usize = 0;
    while i < ifaces.len()
        invariant
            0 <= i <= ifaces@.len(),
            id as nat == iface.id(),
            forall|k: int| 0 <= k < i ==> (#[trigger] ifaces@[k]).id() != iface.id(),
        decreases ifaces@.len() - i,
    {
        if ifaces[i].exec_id() == id {
            return true;
        }
        i += 1;
    }
    false
}

/// The interfaces of a list, each once, in the order in which they first
/// occur.
pub fn dedup<Iface: InterfaceId>(ifaces: &Vec<Iface>) -> (r: Vec<Iface>)
    ensures
        r@ == spec_dedup(ifaces@),
        spec_distinct_ifaces(r@),
{
    let mut out: Vec<Iface> = Vec::new();
    let mut i: usize = 0;
    while i < ifaces.len()
        invariant
            0 <= i <= ifaces@.len(),
            out@ == spec_dedup(ifaces@.subrange(0, i as int)),
        decreases ifaces@.len() - i,
    {
        proof {
            assert(ifaces@.subrange(0, i + 1).drop_last() =~= ifaces@.subrange(0, i as int));
            assert(ifaces@.subrange(0, i + 1).last() == ifaces@[i as int]);
        }
        if !has_iface(&out, &ifaces[i]) {
            out.push(ifaces[i]);
        }
        i += 1;
    }
    proof {
        assert(ifaces@.subrange(0, i as int) =~= ifaces@);
        lemma_dedup(ifaces@);
    }
    out
}

/// A step of sending one datagram to the group.
#[derive(Clone, Copy, Debug)]
pub enum SendStep<Iface> {
    /// Make this interface the one that multicasts leave by.
    SetMulticastIf(Iface),
    /// Send the datagram to the group's address.
    Send,
}

/// The steps that send a datagram on each interface of a list: for each
/// interface in turn, first the choice of the interface, then the send.
pub open spec fn spec_fan_out<Iface>(ifaces: Seq<Iface>) -> Seq<SendStep<Iface>> {
    Seq::new(
        (2 * ifaces.len()) as nat,
        |k: int| if k % 2 == 0 {
            SendStep::SetMulticastIf(ifaces[k / 2])
        } else {
            SendStep::Send
        },
    )
}

/// A socket of one family together with the interfaces that its multicasts
/// must be sent on one by one, where there are several.
#[derive(Debug)]
pub enum InterfacedMdnsSocket<Socket, Iface> {
    /// The socket sends by one interface, which is set once and for all:
    /// one send per multicast.
    UniInterface(Socket),
    /// The socket sends by each of these interfaces in turn.
    MultiInterface {
        /// The socket.
        socket: Socket,
        /// The interfaces, none twice.
        ifaces: Vec<Iface>,
    },
}

impl<Socket, Iface: InterfaceId> InterfacedMdnsSocket<Socket, Iface> {
    /// The socket.
    pub open spec fn spec_socket(&self) -> Socket {
        match *self {
            InterfacedMdnsSocket::UniInterface(socket) => socket,
            InterfacedMdnsSocket::MultiInterface { socket, ifaces } => socket,
        }
    }

    /// The steps of one multicast: a single send for a socket of one
    /// interface, else choice and send for each interface in turn.
    pub open spec fn spec_multicast_steps(&self) -> Seq<SendStep<Iface>> {
        match *self {
            InterfacedMdnsSocket::UniInterface(_) => seq![SendStep::Send],
            InterfacedMdnsSocket::MultiInterface { socket, ifaces } => spec_fan_out(ifaces@),
        }
    }

    /// Whether a socket of several interfaces has indeed several, and none
    /// of them twice.
    pub open spec fn wf(&self) -> bool {
        match *self {
            InterfacedMdnsSocket::UniInterface(_) => true,
            InterfacedMdnsSocket::MultiInterface { socket, ifaces } => ifaces@.len() > 1
                && spec_distinct_ifaces(ifaces@),
        }
    }

    /// Marks a socket by the number of interfaces it was set up with: with
    /// none (the system chooses) or one it sends once per multicast, with
    /// more it sends on each in turn.
    pub fn new(socket: Socket, ifaces: Vec<Iface>) -> (r: Self)
        requires
            spec_distinct_ifaces(ifaces@),
        ensures
            r.wf(),
            r == if ifaces@.len() <= 1 {
                InterfacedMdnsSocket::<Socket, Iface>::UniInterface(socket)
            } else {
                InterfacedMdnsSocket::<Socket, Iface>::MultiInterface { socket, ifaces }
            },
    {
        if ifaces.len() <= 1 {
            InterfacedMdnsSocket::UniInterface(socket)
        } else {
            InterfacedMdnsSocket::MultiInterface { socket, ifaces }
        }
    }

    /// The socket.
    pub fn socket(&self) -> (r: &Socket)
        ensures
            *r == self.spec_socket(),
    {
        match self {
            InterfacedMdnsSocket::UniInterface(socket) => socket,
            InterfacedMdnsSocket::MultiInterface { socket, .. } => socket,
        }
    }

    /// The steps that send one datagram to the group. They are to be taken
    /// in order and without anything between a choice of interface and its
    /// send; the first that fails ends the multicast with its error.
    pub fn send_to_multicast(&self) -> (r: Vec<SendStep<Iface>>)
        ensures
            r@ == self.spec_multicast_steps(),
    {
        match self {
            InterfacedMdnsSocket::UniInterface(_) => {
                let mut steps: Vec<SendStep<Iface>> = Vec::new();
                steps.push(SendStep::Send);
                assert(steps@ =~= seq![SendStep::<Iface>::Send]);
                steps
            },
            InterfacedMdnsSocket::MultiInterface { socket, ifaces } => {
                let mut steps: Vec<SendStep<Iface>> = Vec::new();
                let mut i: usize = 0;
                while i < ifaces.len()
                    invariant
                        0 <= i <= ifaces@.len(),
                        steps@ == spec_fan_out(ifaces@.subrange(0, i as int)),
                    decreases ifaces@.len() - i,
                {
                    let ghost before = steps@;
                    steps.push(SendStep::SetMulticastIf(ifaces[i]));
                    steps.push(SendStep::Send);
                    assert(steps@ =~= spec_fan_out(ifaces@.subrange(0, i + 1))) by {
                        let want = spec_fan_out(ifaces@.subrange(0, i + 1));
                        assert(steps@.len() == want.len());
                        assert forall|k: int| 0 <= k < want.len() implies steps@[k] == want[k] by {
                            if k < 2 * i {
                                assert(steps@[k] == before[k]);
                            }
                        }
                    }
                    i += 1;
                }
                assert(ifaces@.subrange(0, i as int) =~= ifaces@);
                steps
            },
        }
    }
}

/// The error of the first step that failed, among the outcomes of steps
/// taken in order; success where none failed.
pub open spec fn spec_first_failure(outcomes: Seq<Result<(), IoError>>) -> Result<(), IoError>
    decreases outcomes.len(),
{
    if outcomes.len() == 0 {
        Ok(())
    } else {
        match outcomes[0] {
            Err(err) => Err(err),
            Ok(()) => spec_first_failure(outcomes.subrange(1, outcomes.len() as int)),
        }
    }
}

/// The outcome of a multicast on one family from the outcomes of its
/// steps: it fails with the error of the first step that failed.
pub fn send_to_multicast_result(outcomes: Vec<Result<(), IoError>>) -> (r: Result<(), IoError>)
    ensures
        r == spec_first_failure(outcomes@),
{
    let mut outcomes = outcomes;
    let ghost all = outcomes@;
    let mut first: Result<(), IoError> = Ok(());
    while outcomes.len() > 0
        invariant
            outcomes@.len() <= all.len(),
            outcomes@ == all.subrange(0, outcomes@.len() as int),
            first == spec_first_failure(all.subrange(outcomes@.len() as int, all.len() as int)),
        decreases outcomes@.len(),
    {
        let ghost n = outcomes@.len() as int;
        let last = outcomes.pop().unwrap();
        proof {
            let tail = all.subrange(n - 1, all.len() as int);
            assert(tail[0] == last);
            assert(tail.subrange(1, tail.len() as int) =~= all.subrange(n, all.len() as int));
            assert(outcomes@ =~= all.subrange(0, n - 1));
        }
        match last {
            Err(err) => {
                first = Err(err);
            },
            Ok(()) => {},
        }
    }
    assert(all.subrange(0, all.len() as int) =~= all);
    first
}

/// The sockets of a broadcaster or a browser: one of a family, or one of
/// each.
#[derive(Debug)]
pub enum MdnsSocket<Socket> {
    /// An IPv4 socket alone.
    V4(InterfacedMdnsSocket<Socket, Ipv4Addr>),
    /// An IPv6 socket alone.
    V6(InterfacedMdnsSocket<Socket, Ipv6Interface>),
    /// A socket of each family.
    Multicol {
        /// The IPv4 socket.
        v4: InterfacedMdnsSocket<Socket, Ipv4Addr>,
        /// The IPv6 socket.
        v6: InterfacedMdnsSocket<Socket, Ipv6Interface>,
    },
}

/// What the sends of one multicast gave, family by family. A socket of one
/// family has one outcome, a socket of both has two.
#[derive(Debug)]
pub enum Sent {
    /// The outcome on the IPv4 socket of a socket of that family alone.
    V4(Result<(), IoError>),
    /// The outcome on the IPv6 socket of a socket of that family alone.
    V6(Result<(), IoError>),
    /// The outcomes on both sockets.
    Both {
        /// The outcome on the IPv4 socket.
        v4: Result<(), IoError>,
        /// The outcome on the IPv6 socket.
        v6: Result<(), IoError>,
    },
}

/// The outcome of one multicast: that of the only family, filed under it;
/// for both families success if either succeeded, else both errors.
pub open spec fn spec_send_multicast(sent: Sent) -> Result<(), MultiIpIoError> {
    match sent {
        Sent::V4(Ok(())) => Ok(()),
        Sent::V4(Err(err)) => Err(MultiIpIoError::V4(err)),
        Sent::V6(Ok(())) => Ok(()),
        Sent::V6(Err(err)) => Err(MultiIpIoError::V6(err)),
        Sent::Both { v4: Err(v4), v6: Err(v6) } => Err(MultiIpIoError::Both { v4, v6 }),
        Sent::Both { .. } => Ok(()),
    }
}

/// A multicast on both families succeeds if and only if the send of at
/// least one family succeeded, and where both failed it reports both
/// errors.
pub proof fn lemma_either_succeeded(v4: Result<(), IoError>, v6: Result<(), IoError>)
    ensures
        spec_send_multicast(Sent::Both { v4, v6 }) is Ok <==> (v4 is Ok || v6 is Ok),
        spec_send_multicast(Sent::Both { v4, v6 }) matches Err(err) ==> err == (
        MultiIpIoError::Both { v4: v4->Err_0, v6: v6->Err_0 }),
{
}

/// The text of the error for an IPv6 address handed to IPv4 sockets.
pub open spec fn spec_only_v4_message() -> Seq<char> {
    "Invalid address (only IPv4 available, got IPv6 address)"@
}

/// The text of the error for an IPv4 address handed to IPv6 sockets.
pub open spec fn spec_only_v6_message() -> Seq<char> {
    "Invalid address (only IPv6 available, got IPv4 address)"@
}

/// Whether an error is the refusal of an address as invalid input, with
/// the given text. Such a refusal is filed under IPv4, whichever family the
/// address was of.
pub open spec fn spec_is_invalid_input(err: MultiIpIoError, message: Seq<char>) -> bool {
    &&& err is V4
    &&& err->V4_0.kind == IoErrorKind::InvalidInput
    &&& err->V4_0.message@ == message
}

/// What receiving a datagram on one socket gave: how many bytes and from
/// where, or the error.
pub type Received = Result<(usize, SocketAddr), IoError>;

/// What is known of a receive on both families after the first of the two
/// has ended.
#[derive(Debug)]
pub enum Race {
    /// The receive is over with this outcome.
    Done(Result<(Family, usize, SocketAddr), MultiIpIoError>),
    /// The first socket failed: the other is to be waited for.
    AwaitOther {
        /// The family whose socket failed.
        failed: Family,
        /// Its error.
        error: IoError,
    },
}

/// The family that is not this one.
pub open spec fn spec_other(family: Family) -> Family {
    match family {
        Family::V4 => Family::V6,
        Family::V6 => Family::V4,
    }
}

/// What the end of the first of two receives means: a datagram is handed
/// on, a failure makes the other receive the one that counts.
pub open spec fn spec_race_first(first: Family, outcome: Received) -> Race {
    match outcome {
        Ok((count, addr)) => Race::Done(Ok((first, count, addr))),
        Err(error) => Race::AwaitOther { failed: first, error },
    }
}

/// What the end of the second receive means after the first has failed: a
/// datagram is handed on; a second failure gives both errors, each under
/// its family.
pub open spec fn spec_race_second(failed: Family, error: IoError, outcome: Received) -> Result<
    (Family, usize, SocketAddr),
    MultiIpIoError,
> {
    match outcome {
        Ok((count, addr)) => Ok((spec_other(failed), count, addr)),
        Err(second) => Err(
            match failed {
                Family::V4 => MultiIpIoError::Both { v4: error, v6: second },
                Family::V6 => MultiIpIoError::Both { v4: second, v6: error },
            },
        ),
    }
}

/// What receiving on a socket of one family gave, with the error filed
/// under the family.
pub open spec fn spec_recv_single(family: Family, outcome: Received) -> Result<
    (Family, usize, SocketAddr),
    MultiIpIoError,
> {
    match outcome {
        Ok((count, addr)) => Ok((family, count, addr)),
        Err(err) => Err(spec_family_error(family, err)),
    }
}

/// A receive on both families reports both errors only where both
/// receives failed, and hands on a datagram whenever one of them gave one.
pub proof fn lemma_race(first: Family, outcome: Received, other: Received)
    ensures
        outcome is Ok ==> spec_race_first(first, outcome) == Race::Done(
            Ok((first, outcome->Ok_0.0, outcome->Ok_0.1)),
        ),
        outcome is Err ==> spec_race_first(first, outcome) == (Race::AwaitOther {
            failed: first,
            error: outcome->Err_0,
        }),
        spec_race_second(first, outcome->Err_0, other) is Err <==> other is Err,
        spec_race_second(first, outcome->Err_0, other) matches Err(err) ==> err is Both,
{
}

/// The buffers and sockets of a receive.
#[derive(Debug)]
pub enum MdnsSocketRecv<'a, Socket> {
    /// The IPv4 socket and its buffer.
    V4(&'a Socket, Vec<u8>),
    /// The IPv6 socket and its buffer.
    V6(&'a Socket, Vec<u8>),
    /// Both sockets, each with a buffer of its own, so that both receives
    /// can be under way at once.
    Multicol {
        /// The IPv4 socket and its buffer.
        v4: (&'a Socket, Vec<u8>),
        /// The IPv6 socket and its buffer.
        v6: (&'a Socket, Vec<u8>),
    },
}

impl<'a, Socket> MdnsSocketRecv<'a, Socket> {
    /// What a receive on a socket of one family gave.
    pub fn recv_single(family: Family, outcome: Received) -> (r: Result<
        (Family, usize, SocketAddr),
        MultiIpIoError,
    >)
        ensures
            r == spec_recv_single(family, outcome),
    {
        match outcome {
            Ok((count, addr)) => Ok((family, count, addr)),
            Err(err) => Err(family_error(family, err)),
        }
    }

    /// Of two receives under way, the one of `first` has ended with
    /// `outcome`: tells whether the receive is over.
    pub fn recv_multicast(first: Family, outcome: Received) -> (r: Race)
        ensures
            r == spec_race_first(first, outcome),
    {
        match outcome {
            Ok((count, addr)) => Race::Done(Ok((first, count, addr))),
            Err(error) => Race::AwaitOther { failed: first, error },
        }
    }

    /// After the socket of `failed` has failed with `error`, the other has
    /// ended with `outcome`.
    pub fn recv_other(failed: Family, error: IoError, outcome: Received) -> (r: Result<
        (Family, usize, SocketAddr),
        MultiIpIoError,
    >)
        ensures
            r == spec_race_second(failed, error, outcome),
    {
        match outcome {
            Ok((count, addr)) => {
                let other = match failed {
                    Family::V4 => Family::V6,
                    Family::V6 => Family::V4,
                };
                Ok((other, count, addr))
            },
            Err(second) => Err(
                match failed {
                    Family::V4 => MultiIpIoError::Both { v4: error, v6: second },
                    Family::V6 => MultiIpIoError::Both { v4: second, v6: error },
                },
            ),
        }
    }
}

impl<Socket> MdnsSocket<Socket> {
    /// Whether the sockets serve the IPv4 family.
    pub open spec fn has_v4(&self) -> bool {
        *self is V4 || *self is Multicol
    }

    /// Whether the sockets serve the IPv6 family.
    pub open spec fn has_v6(&self) -> bool {
        *self is V6 || *self is Multicol
    }

    /// Makes the sockets of a broadcaster or a browser that asked for both
    /// families out of what opening each gave: both where both opened, the
    /// one that opened where the other failed, and both errors where none
    /// did.
    pub fn new(
        v4: Result<InterfacedMdnsSocket<Socket, Ipv4Addr>, IoError>,
        v6: Result<InterfacedMdnsSocket<Socket, Ipv6Interface>, IoError>,
    ) -> (r: Result<Self, (IoError, IoError)>)
        ensures
            r == match (v4, v6) {
                (Ok(v4), Ok(v6)) => Ok::<MdnsSocket<Socket>, (IoError, IoError)>(
                    MdnsSocket::Multicol { v4, v6 },
                ),
                (Err(v4), Err(v6)) => Err((v4, v6)),
                (Ok(v4), Err(_)) => Ok(MdnsSocket::V4(v4)),
                (Err(_), Ok(v6)) => Ok(MdnsSocket::V6(v6)),
            },
    {
        match (v4, v6) {
            (Ok(v4), Ok(v6)) => Ok(MdnsSocket::Multicol { v4, v6 }),
            (Err(v4), Err(v6)) => Err((v4, v6)),
            (Ok(v4), Err(_)) => Ok(MdnsSocket::V4(v4)),
            (Err(_), Ok(v6)) => Ok(MdnsSocket::V6(v6)),
        }
    }

    /// The sockets of a broadcaster or a browser that asked for IPv4 alone.
    pub fn new_v4(v4: Result<InterfacedMdnsSocket<Socket, Ipv4Addr>, IoError>) -> (r: Result<
        Self,
        IoError,
    >)
        ensures
            r == match v4 {
                Ok(v4) => Ok::<MdnsSocket<Socket>, IoError>(MdnsSocket::V4(v4)),
                Err(err) => Err(err),
            },
    {
        match v4 {
            Ok(v4) => Ok(MdnsSocket::V4(v4)),
            Err(err) => Err(err),
        }
    }

    /// The sockets of a broadcaster or a browser that asked for IPv6 alone.
    pub fn new_v6(v6: Result<InterfacedMdnsSocket<Socket, Ipv6Interface>, IoError>) -> (r: Result<
        Self,
        IoError,
    >)
        ensures
            r == match v6 {
                Ok(v6) => Ok::<MdnsSocket<Socket>, IoError>(MdnsSocket::V6(v6)),
                Err(err) => Err(err),
            },
    {
        match v6 {
            Ok(v6) => Ok(MdnsSocket::V6(v6)),
            Err(err) => Err(err),
        }
    }

    /// The socket that a datagram for `addr` leaves by: that of the
    /// address's family. Where the sockets do not serve that family the
    /// address is refused as invalid input.
    pub fn send_to(&self, addr: &SocketAddr) -> (r: Result<(Family, &Socket), MultiIpIoError>)
        ensures
            match r {
                Ok((family, socket)) => match *addr {
                    SocketAddr::V4(_) => self.has_v4() && family == Family::V4 && *socket == (
                    match *self {
                        MdnsSocket::V4(v4) => v4.spec_socket(),
                        MdnsSocket::Multicol { v4, v6 } => v4.spec_socket(),
                        MdnsSocket::V6(v6) => v6.spec_socket(),
                    }),
                    SocketAddr::V6(_) => self.has_v6() && family == Family::V6 && *socket == (
                    match *self {
                        MdnsSocket::V6(v6) => v6.spec_socket(),
                        MdnsSocket::Multicol { v4, v6 } => v6.spec_socket(),
                        MdnsSocket::V4(v4) => v4.spec_socket(),
                    }),
                },
                Err(err) => match *addr {
                    SocketAddr::V4(_) => !self.has_v4() && spec_is_invalid_input(
                        err,
                        spec_only_v6_message(),
                    ),
                    SocketAddr::V6(_) => !self.has_v6() && spec_is_invalid_input(
                        err,
                        spec_only_v4_message(),
                    ),
                },
            },
    {
        match (addr, self) {
            (SocketAddr::V4(_), MdnsSocket::V4(v4)) => Ok((Family::V4, v4.socket())),
            (SocketAddr::V4(_), MdnsSocket::Multicol { v4, .. }) => Ok((Family::V4, v4.socket())),
            (SocketAddr::V6(_), MdnsSocket::V6(v6)) => Ok((Family::V6, v6.socket())),
            (SocketAddr::V6(_), MdnsSocket::Multicol { v6, .. }) => Ok((Family::V6, v6.socket())),
            (SocketAddr::V6(_), MdnsSocket::V4(_)) => Err(
                MultiIpIoError::V4(
                    IoError::new(
                        IoErrorKind::InvalidInput,
                        "Invalid address (only IPv4 available, got IPv6 address)",
                    ),
                ),
            ),
            (SocketAddr::V4(_), MdnsSocket::V6(_)) => Err(
                MultiIpIoError::V4(
                    IoError::new(
                        IoErrorKind::InvalidInput,
                        "Invalid address (only IPv6 available, got IPv4 address)",
                    ),
                ),
            ),
        }
    }

    /// The outcome of a unicast send on the socket of a family.
    pub fn send_to_result(family: Family, outcome: Result<(), IoError>) -> (r: Result<
        (),
        MultiIpIoError,
    >)
        ensures
            r == match outcome {
                Ok(()) => Ok::<(), MultiIpIoError>(()),
                Err(err) => Err(spec_family_error(family, err)),
            },
    {
        match outcome {
            Ok(()) => Ok(()),
            Err(err) => Err(family_error(family, err)),
        }
    }

    /// The outcome of one multicast from the outcomes of its families.
    pub fn send_multicast(sent: Sent) -> (r: Result<(), MultiIpIoError>)
        ensures
            r == spec_send_multicast(sent),
    {
        match sent {
            Sent::V4(Ok(())) => Ok(()),
            Sent::V4(Err(err)) => Err(MultiIpIoError::V4(err)),
            Sent::V6(Ok(())) => Ok(()),
            Sent::V6(Err(err)) => Err(MultiIpIoError::V6(err)),
            Sent::Both { v4: Err(v4), v6: Err(v6) } => Err(MultiIpIoError::Both { v4, v6 }),
            Sent::Both { .. } => Ok(()),
        }
    }

    /// What it takes to receive: each socket with a buffer of its own, the
    /// second buffer a copy of the first.
    pub fn recv(&self, buffer: Vec<u8>) -> (r: MdnsSocketRecv<'_, Socket>)
        ensures
            match (*self, r) {
                (MdnsSocket::V4(v4), MdnsSocketRecv::V4(socket, buf)) => *socket
                    == v4.spec_socket() && buf@ == buffer@,
                (MdnsSocket::V6(v6), MdnsSocketRecv::V6(socket, buf)) => *socket
                    == v6.spec_socket() && buf@ == buffer@,
                (
                    MdnsSocket::Multicol { v4, v6 },
                    MdnsSocketRecv::Multicol { v4: (s4, b4), v6: (s6, b6) },
                ) => *s4 == v4.spec_socket() && *s6 == v6.spec_socket() && b4@ == buffer@ && b6@
                    == buffer@,
                _ => false,
            },
    {
        match self {
            MdnsSocket::V4(v4) => MdnsSocketRecv::V4(v4.socket(), buffer),
            MdnsSocket::V6(v6) => MdnsSocketRecv::V6(v6.socket(), buffer),
            MdnsSocket::Multicol { v4, v6 } => {
                let second = crate::bytes::copy(buffer.as_slice());
                MdnsSocketRecv::Multicol { v4: (v4.socket(), second), v6: (v6.socket(), buffer) }
            },
        }
    }
}

/// How long a blocking receive on a new socket waits, in milliseconds.
pub const READ_TIMEOUT_MILLIS: u64 = 100;

/// One thing to do to a socket while it is set up. An interface of `None`
/// stands for the unspecified one: the system chooses.
#[derive(Clone, Copy, Debug)]
pub enum SetupOp<Iface> {
    /// Create a datagram socket of the family.
    Create(Family),
    /// Let a blocking receive give up after so many milliseconds.
    SetReadTimeout(u64),
    /// Let other sockets bind to the same address.
    SetReuseAddress(bool),
    /// Let an IPv6 socket serve IPv6 only.
    SetOnlyV6(bool),
    /// Whether what is sent to the group comes back to this host.
    SetMulticastLoop(bool),
    /// Let other sockets bind to the same port.
    SetReusePort(bool),
    /// Join the mDNS group on the interface.
    JoinGroup(Option<Iface>),
    /// Make the interface the one that multicasts leave by.
    SetMulticastIf(Option<Iface>),
    /// Bind to the mDNS port, at the wildcard address or at the address of
    /// the interface.
    Bind(Option<Iface>),
    /// Send one datagram of one zero byte to the group, to see that the
    /// socket works.
    SendProbe,
}

/// The options of a new socket, in the order in which they are set.
pub open spec fn spec_setup_options<Iface>(family: Family, loopback: bool, reuse_port: bool) -> Seq<
    SetupOp<Iface>,
> {
    let start = seq![
        SetupOp::<Iface>::Create(family),
        SetupOp::SetReadTimeout(READ_TIMEOUT_MILLIS),
        SetupOp::SetReuseAddress(true),
    ];
    let only = if family == Family::V6 {
        start.push(SetupOp::SetOnlyV6(true))
    } else {
        start
    };
    let looped = only.push(SetupOp::SetMulticastLoop(loopback));
    if reuse_port {
        looped.push(SetupOp::SetReusePort(true))
    } else {
        looped
    }
}

/// The first steps of setting a socket up: create it and set its options.
/// Each of them must succeed. `reuse_port` says whether the system knows
/// the option of that name.
pub fn setup_options<Iface>(family: Family, loopback: bool, reuse_port: bool) -> (r: Vec<
    SetupOp<Iface>,
>)
    ensures
        r@ == spec_setup_options::<Iface>(family, loopback, reuse_port),
{
    let mut ops: Vec<SetupOp<Iface>> = Vec::new();
    ops.push(SetupOp::Create(family));
    ops.push(SetupOp::SetReadTimeout(READ_TIMEOUT_MILLIS));
    ops.push(SetupOp::SetReuseAddress(true));
    match family {
        Family::V6 => {
            ops.push(SetupOp::SetOnlyV6(true));
        },
        Family::V4 => {},
    }
    ops.push(SetupOp::SetMulticastLoop(loopback));
    if reuse_port {
        ops.push(SetupOp::SetReusePort(true));
    }
    assert(ops@ =~= spec_setup_options::<Iface>(family, loopback, reuse_port));
    ops
}

/// How a socket joins the group.
#[derive(Debug)]
pub enum Joins<Iface> {
    /// Take each of these steps in turn; one that fails ends the set-up
    /// with its error.
    Required(Vec<SetupOp<Iface>>),
    /// Try each of these interfaces in turn, by the steps that `attempt`
    /// gives for it. An interface counts as joined where none of its steps
    /// failed; a failure is no error, and ends the attempt.
    BestEffort(Vec<Iface>),
}

/// The steps that join the group on each interface of a list in turn.
pub open spec fn spec_each<Iface>(ifaces: Seq<Iface>) -> Seq<SetupOp<Iface>> {
    Seq::new(ifaces.len(), |i: int| SetupOp::JoinGroup(Some(ifaces[i])))
}

/// The steps that try an interface: make it the interface that multicasts
/// leave by, then join the group on it.
pub open spec fn spec_attempt<Iface>(iface: Iface) -> Seq<SetupOp<Iface>> {
    seq![SetupOp::SetMulticastIf(Some(iface)), SetupOp::JoinGroup(Some(iface))]
}

/// The steps that try an interface, to be taken in order until one fails.
pub fn attempt<Iface: InterfaceId>(iface: Iface) -> (r: Vec<SetupOp<Iface>>)
    ensures
        r@ == spec_attempt(iface),
{
    let mut ops: Vec<SetupOp<Iface>> = Vec::new();
    ops.push(SetupOp::SetMulticastIf(Some(iface)));
    ops.push(SetupOp::JoinGroup(Some(iface)));
    assert(ops@ =~= spec_attempt(iface));
    ops
}

/// How a socket joins the group, as mathematical values.
pub enum JoinsView<Iface> {
    /// Take each of these steps in turn.
    Required(Seq<SetupOp<Iface>>),
    /// Try each of these interfaces in turn.
    BestEffort(Seq<Iface>),
}

impl<Iface> View for Joins<Iface> {
    type V = JoinsView<Iface>;

    open spec fn view(&self) -> JoinsView<Iface> {
        match *self {
            Joins::Required(ifaces) => JoinsView::Required(ifaces@),
            Joins::BestEffort(ifaces) => JoinsView::BestEffort(ifaces@),
        }
    }
}

/// How a socket joins the group, from the selection of its interfaces and,
/// for the selection of all, the interfaces that the system lists: on the
/// unspecified interface by default, on the one interface selected, on each
/// of several selected, or on as many of those listed as will have it.
pub open spec fn spec_join_plan<Iface: InterfaceId>(
    interface: TargetInterface<Iface>,
    candidates: Seq<Iface>,
) -> JoinsView<Iface> {
    match interface {
        TargetInterface::Default => JoinsView::Required(seq![SetupOp::JoinGroup(None)]),
        TargetInterface::Specific(iface) => JoinsView::Required(
            seq![SetupOp::JoinGroup(Some(iface))],
        ),
        TargetInterface::Multi(ifaces) => JoinsView::Required(spec_each(spec_dedup(ifaces@))),
        TargetInterface::All => JoinsView::BestEffort(spec_dedup(candidates)),
    }
}

/// How a socket joins the group. `candidates` are the interfaces of the
/// family that the system lists, loopback left out; they matter where all
/// interfaces are selected.
pub fn join_plan<Iface: InterfaceId>(interface: &TargetInterface<Iface>, candidates: &Vec<Iface>) -> (r:
    Joins<Iface>)
    ensures
        r@ == spec_join_plan(*interface, candidates@),
{
    match interface {
        TargetInterface::Default => {
            let mut joins: Vec<SetupOp<Iface>> = Vec::new();
            joins.push(SetupOp::JoinGroup(None));
            assert(joins@ =~= seq![SetupOp::<Iface>::JoinGroup(None)]);
            Joins::Required(joins)
        },
        TargetInterface::Specific(iface) => {
            let mut joins: Vec<SetupOp<Iface>> = Vec::new();
            joins.push(SetupOp::JoinGroup(Some(*iface)));
            assert(joins@ =~= seq![SetupOp::JoinGroup(Some(*iface))]);
            Joins::Required(joins)
        },
        TargetInterface::Multi(ifaces) => {
            let each = dedup(ifaces);
            let mut joins: Vec<SetupOp<Iface>> = Vec::new();
            let mut i: usize = 0;
            while i < each.len()
                invariant
                    0 <= i <= each@.len(),
                    joins@ == spec_each(each@.subrange(0, i as int)),
                decreases each@.len() - i,
            {
                joins.push(SetupOp::JoinGroup(Some(each[i])));
                assert(joins@ =~= spec_each(each@.subrange(0, i + 1)));
                i += 1;
            }
            assert(each@.subrange(0, i as int) =~= each@);
            Joins::Required(joins)
        },
        TargetInterface::All => Joins::BestEffort(dedup(candidates)),
    }
}

/// The interfaces that were joined among those tried: those whose place in
/// the list of outcomes says so, in their order; none where the two lists
/// do not match in length.
pub open spec fn spec_retained<Iface>(tried: Seq<Iface>, joined: Seq<bool>) -> Seq<Iface>
    decreases tried.len(),
{
    if tried.len() == 0 || joined.len() != tried.len() {
        Seq::empty()
    } else {
        let front = spec_retained(tried.drop_last(), joined.drop_last());
        if joined.last() {
            front.push(tried.last())
        } else {
            front
        }
    }
}

/// Every interface retained was tried, at the same place or later, and was
/// joined.
pub proof fn lemma_retained_origin<Iface>(tried: Seq<Iface>, joined: Seq<bool>, k: int)
    requires
        tried.len() == joined.len(),
        0 <= k < spec_retained(tried, joined).len(),
    ensures
        exists|i: int|
            k <= i < tried.len() && #[trigger] joined[i] && tried[i] == spec_retained(
                tried,
                joined,
            )[k],
    decreases tried.len(),
{
    let front = tried.drop_last();
    let front_joined = joined.drop_last();
    lemma_retained_len(front, front_joined);
    if k < spec_retained(front, front_joined).len() {
        lemma_retained_origin(front, front_joined, k);
        let i = choose|i: int|
            k <= i < front.len() && #[trigger] front_joined[i] && front[i] == spec_retained(
                front,
                front_joined,
            )[k];
        assert(joined[i] && tried[i] == front[i]);
    } else {
        let i = tried.len() - 1;
        assert(joined[i]);
    }
}

/// No more interfaces are retained than were tried.
pub proof fn lemma_retained_len<Iface>(tried: Seq<Iface>, joined: Seq<bool>)
    requires
        tried.len() == joined.len(),
    ensures
        spec_retained(tried, joined).len() <= tried.len(),
    decreases tried.len(),
{
    if tried.len() > 0 {
        lemma_retained_len(tried.drop_last(), joined.drop_last());
    }
}

/// Of interfaces of which none occurs twice, none retained occurs twice.
pub proof fn lemma_retained_distinct<Iface: InterfaceId>(tried: Seq<Iface>, joined: Seq<bool>)
    requires
        tried.len() == joined.len(),
        spec_distinct_ifaces(tried),
    ensures
        spec_distinct_ifaces(spec_retained(tried, joined)),
    decreases tried.len(),
{
    if tried.len() > 0 {
        let front = tried.drop_last();
        let front_joined = joined.drop_last();
        assert forall|i: int, j: int| 0 <= i < j < front.len() implies (#[trigger] front[i]).id() != (
        #[trigger] front[j]).id() by {
            assert(front[i] == tried[i] && front[j] == tried[j]);
        }
        lemma_retained_distinct(front, front_joined);
        let kept = spec_retained(tried, joined);
        let kept_front = spec_retained(front, front_joined);
        if joined.last() {
            assert forall|i: int, j: int| 0 <= i < j < kept.len() implies (#[trigger] kept[i]).id() != (
            #[trigger] kept[j]).id() by {
                if j == kept.len() - 1 {
                    lemma_retained_origin(front, front_joined, i);
                    let o = choose|o: int|
                        i <= o < front.len() && #[trigger] front_joined[o] && front[o]
                            == kept_front[i];
                    assert(tried[o] == front[o]);
                    assert(tried[tried.len() - 1] == kept[j]);
                } else {
                    assert(kept[i] == kept_front[i] && kept[j] == kept_front[j]);
                }
            }
        }
    }
}

/// The interfaces that were joined among those tried. `joined` tells of
/// each interface tried, in order, whether it was joined.
pub fn retain_joined<Iface: InterfaceId>(tried: &Vec<Iface>, joined: &Vec<bool>) -> (r: Vec<Iface>)
    ensures
        r@ == spec_retained(tried@, joined@),
        tried@.len() == joined@.len() && spec_distinct_ifaces(tried@) ==> spec_distinct_ifaces(
            r@,
        ),
{
    let mut kept: Vec<Iface> = Vec::new();
    if tried.len() != joined.len() {
        return kept;
    }
    let mut i: usize = 0;
    while i < tried.len()
        invariant
            0 <= i <= tried@.len(),
            tried@.len() == joined@.len(),
            kept@ == spec_retained(tried@.subrange(0, i as int), joined@.subrange(0, i as int)),
        decreases tried@.len() - i,
    {
        proof {
            assert(tried@.subrange(0, i + 1).drop_last() =~= tried@.subrange(0, i as int));
            assert(joined@.subrange(0, i + 1).drop_last() =~= joined@.subrange(0, i as int));
        }
        if joined[i] {
            kept.push(tried[i]);
        }
        i += 1;
    }
    proof {
        assert(tried@.subrange(0, i as int) =~= tried@);
        assert(joined@.subrange(0, i as int) =~= joined@);
        if spec_distinct_ifaces(tried@) {
            lemma_retained_distinct(tried@, joined@);
        }
    }
    kept
}

/// The interfaces that a socket ends up with: none by default, the one
/// selected, the several selected, or those that were joined of all; each
/// of them once.
pub open spec fn spec_final_ifaces<Iface: InterfaceId>(
    interface: TargetInterface<Iface>,
    retained: Seq<Iface>,
) -> Seq<Iface> {
    match interface {
        TargetInterface::Default => Seq::empty(),
        TargetInterface::Specific(iface) => seq![iface],
        TargetInterface::Multi(ifaces) => spec_dedup(ifaces@),
        TargetInterface::All => spec_dedup(retained),
    }
}

/// The only interface of a list of one.
pub open spec fn spec_single<Iface>(ifaces: Seq<Iface>) -> Option<Iface> {
    if ifaces.len() == 1 {
        Some(ifaces[0])
    } else {
        None
    }
}

/// The last steps of setting a socket up, each of which must succeed: the
/// join on the unspecified interface where all were selected and none was
/// joined; the bind, to the only interface where the system wants that and
/// there is one, else to the wildcard; the choice of the unspecified
/// interface and the probe; and the choice of the only interface, where
/// there is one.
pub open spec fn spec_finish_ops<Iface: InterfaceId>(
    interface: TargetInterface<Iface>,
    retained: Seq<Iface>,
    bind_to_interface: bool,
) -> Seq<SetupOp<Iface>> {
    let ifaces = spec_final_ifaces(interface, retained);
    let fallback = if interface is All && ifaces.len() == 0 {
        seq![SetupOp::<Iface>::JoinGroup(None)]
    } else {
        Seq::empty()
    };
    let bound = fallback.push(
        SetupOp::Bind(
            if bind_to_interface {
                spec_single(ifaces)
            } else {
                None
            },
        ),
    ).push(SetupOp::SetMulticastIf(None)).push(SetupOp::SendProbe);
    match spec_single(ifaces) {
        Some(only) => bound.push(SetupOp::SetMulticastIf(Some(only))),
        None => bound,
    }
}

/// The end of a set-up: what is left to do, and the interfaces to mark the
/// socket with.
#[derive(Debug)]
pub struct Finish<Iface> {
    /// The steps left, in order.
    pub ops: Vec<SetupOp<Iface>>,
    /// The interfaces of the socket, none twice.
    pub ifaces: Vec<Iface>,
}

/// The end of a set-up. `retained` are the interfaces that were joined
/// where all were selected; `bind_to_interface` says whether the system
/// wants a socket with one interface bound to that interface's address.
pub fn finish<Iface: InterfaceId>(
    interface: &TargetInterface<Iface>,
    retained: Vec<Iface>,
    bind_to_interface: bool,
) -> (r: Finish<Iface>)
    ensures
        r.ifaces@ == spec_final_ifaces(*interface, retained@),
        r.ops@ == spec_finish_ops(*interface, retained@, bind_to_interface),
        spec_distinct_ifaces(r.ifaces@),
{
    let mut ops: Vec<SetupOp<Iface>> = Vec::new();
    let ifaces: Vec<Iface> = match interface {
        TargetInterface::Default => Vec::new(),
        TargetInterface::Specific(iface) => {
            let mut one: Vec<Iface> = Vec::new();
            one.push(*iface);
            one
        },
        TargetInterface::Multi(ifaces) => dedup(ifaces),
        TargetInterface::All => {
            let joined = dedup(&retained);
            if joined.len() == 0 {
                ops.push(SetupOp::JoinGroup(None));
            }
            joined
        },
    };
    assert(ifaces@ =~= spec_final_ifaces(*interface, retained@));
    let only = if ifaces.len() == 1 {
        Some(ifaces[0])
    } else {
        None
    };
    ops.push(SetupOp::Bind(if bind_to_interface { only } else { None }));
    ops.push(SetupOp::SetMulticastIf(None));
    ops.push(SetupOp::SendProbe);
    match only {
        Some(iface) => {
            ops.push(SetupOp::SetMulticastIf(Some(iface)));
        },
        None => {},
    }
    assert(ops@ =~= spec_finish_ops(*interface, retained@, bind_to_interface));
    Finish { ops, ifaces }
}

impl<Socket, Iface: InterfaceId> InterfacedMdnsSocket<Socket, Iface> {
    /// The interfaces that the socket sends by in turn; none for a socket
    /// of one interface.
    pub open spec fn spec_ifaces(&self) -> Seq<Iface> {
        match *self {
            InterfacedMdnsSocket::UniInterface(_) => Seq::empty(),
            InterfacedMdnsSocket::MultiInterface { socket, ifaces } => ifaces@,
        }
    }

    /// Puts another kind of socket in the place of the socket, made from it
    /// by `convert`; the interfaces stay. Where `convert` fails, so does
    /// this.
    pub fn into_async<T, F: FnOnce(Socket) -> Result<T, IoError>>(self, convert: F) -> (r: Result<
        InterfacedMdnsSocket<T, Iface>,
        IoError,
    >)
        requires
            convert.requires((self.spec_socket(),)),
        ensures
            match r {
                Ok(made) => {
                    &&& convert.ensures((self.spec_socket(),), Ok(made.spec_socket()))
                    &&& made is UniInterface <==> self is UniInterface
                    &&& made.spec_ifaces() == self.spec_ifaces()
                },
                Err(err) => convert.ensures((self.spec_socket(),), Err(err)),
            },
    {
        match self {
            InterfacedMdnsSocket::UniInterface(socket) => {
                match convert(socket) {
                    Ok(made) => Ok(InterfacedMdnsSocket::UniInterface(made)),
                    Err(err) => Err(err),
                }
            },
            InterfacedMdnsSocket::MultiInterface { socket, ifaces } => {
                match convert(socket) {
                    Ok(made) => Ok(InterfacedMdnsSocket::MultiInterface { socket: made, ifaces }),
                    Err(err) => Err(err),
                }
            },
        }
    }
}

/// Whether a socket was made from another by a conversion: the socket
/// itself by `convert`, with the same interfaces.
pub open spec fn spec_converted<Socket, T, Iface: InterfaceId, F: Fn(Socket) -> Result<T, IoError>>(
    convert: F,
    from: InterfacedMdnsSocket<Socket, Iface>,
    made: InterfacedMdnsSocket<T, Iface>,
) -> bool {
    &&& convert.ensures((from.spec_socket(),), Ok(made.spec_socket()))
    &&& made is UniInterface <==> from is UniInterface
    &&& made.spec_ifaces() == from.spec_ifaces()
}

impl<Socket> MdnsSocket<Socket> {
    /// Puts another kind of socket in the place of each socket, made from
    /// it by `convert`: the IPv4 socket first. The first failure ends the
    /// conversion, with the error filed under the family of its socket.
    pub fn into_async<T, F: Fn(Socket) -> Result<T, IoError>>(self, convert: F) -> (r: Result<
        MdnsSocket<T>,
        MultiIpIoError,
    >)
        requires
            forall|socket: Socket| convert.requires((socket,)),
        ensures
            match (self, r) {
                (MdnsSocket::V4(v4), Ok(MdnsSocket::V4(made))) => spec_converted(
                    convert,
                    v4,
                    made,
                ),
                (MdnsSocket::V6(v6), Ok(MdnsSocket::V6(made))) => spec_converted(
                    convert,
                    v6,
                    made,
                ),
                (
                    MdnsSocket::Multicol { v4, v6 },
                    Ok(MdnsSocket::Multicol { v4: made_v4, v6: made_v6 }),
                ) => spec_converted(convert, v4, made_v4) && spec_converted(convert, v6, made_v6),
                (MdnsSocket::V4(v4), Err(MultiIpIoError::V4(err))) => convert.ensures(
                    (v4.spec_socket(),),
                    Err(err),
                ),
                (MdnsSocket::V6(v6), Err(MultiIpIoError::V6(err))) => convert.ensures(
                    (v6.spec_socket(),),
                    Err(err),
                ),
                (MdnsSocket::Multicol { v4, v6 }, Err(MultiIpIoError::V4(err))) => convert.ensures(
                    (v4.spec_socket(),),
                    Err(err),
                ),
                (MdnsSocket::Multicol { v4, v6 }, Err(MultiIpIoError::V6(err))) => convert.ensures(
                    (v6.spec_socket(),),
                    Err(err),
                ),
                _ => false,
            },
    {
        match self {
            MdnsSocket::V4(v4) => match v4.into_async(&convert) {
                Ok(v4) => Ok(MdnsSocket::V4(v4)),
                Err(err) => Err(MultiIpIoError::V4(err)),
            },
            MdnsSocket::V6(v6) => match v6.into_async(&convert) {
                Ok(v6) => Ok(MdnsSocket::V6(v6)),
                Err(err) => Err(MultiIpIoError::V6(err)),
            },
            MdnsSocket::Multicol { v4, v6 } => {
                let v4 = match v4.into_async(&convert) {
                    Ok(v4) => v4,
                    Err(err) => {
                        return Err(MultiIpIoError::V4(err));
                    },
                };
                match v6.into_async(&convert) {
                    Ok(v6) => Ok(MdnsSocket::Multicol { v4, v6 }),
                    Err(err) => Err(MultiIpIoError::V6(err)),
                }
            },
        }
    }
}

/// Whether a step can be done: the one who takes the steps may report it
/// so.
pub open spec fn spec_done<Iface, F: Fn(SetupOp<Iface>) -> Result<(), IoError>>(
    perform: F,
    op: SetupOp<Iface>,
) -> bool {
    exists|outcome: Result<(), IoError>| outcome is Ok && perform.ensures((op,), outcome)
}

/// Whether every step of a list was done.
pub open spec fn spec_all_done<Iface, F: Fn(SetupOp<Iface>) -> Result<(), IoError>>(
    perform: F,
    ops: Seq<SetupOp<Iface>>,
) -> bool {
    forall|k: int| 0 <= k < ops.len() ==> spec_done(perform, #[trigger] ops[k])
}

/// Whether a step of a list failed with an error after the steps before it
/// were done.
pub open spec fn spec_failed<Iface, F: Fn(SetupOp<Iface>) -> Result<(), IoError>>(
    perform: F,
    ops: Seq<SetupOp<Iface>>,
    err: IoError,
) -> bool {
    exists|k: int|
        0 <= k < ops.len() && perform.ensures((#[trigger] ops[k],), Err(err)) && spec_all_done(
            perform,
            ops.subrange(0, k),
        )
}

/// Takes the steps of a list in order, by `perform`, until one fails.
pub fn run<Iface: InterfaceId, F: Fn(SetupOp<Iface>) -> Result<(), IoError>>(
    ops: &Vec<SetupOp<Iface>>,
    perform: &F,
) -> (r: Result<(), IoError>)
    requires
        forall|op: SetupOp<Iface>| perform.requires((op,)),
    ensures
        match r {
            Ok(()) => spec_all_done(perform, ops@),
            Err(err) => spec_failed(perform, ops@, err),
        },
{
    let mut i: usize = 0;
    while i < ops.len()
        invariant
            0 <= i <= ops@.len(),
            forall|op: SetupOp<Iface>| perform.requires((op,)),
            spec_all_done(perform, ops@.subrange(0, i as int)),
        decreases ops@.len() - i,
    {
        let outcome = perform(ops[i]);
        assert(perform.ensures((ops@[i as int],), outcome));
        match outcome {
            Ok(()) => {
                assert(outcome is Ok && perform.ensures((ops@[i as int],), outcome));
                assert(spec_done(perform, ops@[i as int]));
                let ghost front = ops@.subrange(0, i as int);
                let ghost more = ops@.subrange(0, i + 1);
                assert forall|k: int| 0 <= k < more.len() implies spec_done(
                    perform,
                    #[trigger] more[k],
                ) by {
                    if k < i {
                        assert(more[k] == front[k]);
                        assert(spec_done(perform, front[k]));
                    } else {
                        assert(more[k] == ops@[i as int]);
                    }
                }
            },
            Err(err) => {
                assert(perform.ensures((ops@[i as int],), Err(err)));
                return Err(err);
            },
        }
        i += 1;
    }
    assert(ops@.subrange(0, i as int) =~= ops@);
    Ok(())
}

/// Whether the outcomes of the attempts are as the list says: an interface
/// counts as joined where both steps of its attempt were done, and as not
/// joined where one of them failed.
pub open spec fn spec_attempted<Iface, F: Fn(SetupOp<Iface>) -> Result<(), IoError>>(
    perform: F,
    tried: Seq<Iface>,
    joined: Seq<bool>,
) -> bool {
    &&& joined.len() == tried.len()
    &&& forall|i: int|
        0 <= i < tried.len() ==> if #[trigger] joined[i] {
            spec_all_done(perform, spec_attempt(tried[i]))
        } else {
            exists|err: IoError| spec_failed(perform, spec_attempt(tried[i]), err)
        }
}

/// What a set-up is made of.
#[derive(Debug)]
pub struct SetupPlan<Iface> {
    /// The family of the socket.
    pub family: Family,
    /// Whether what is sent to the group comes back to this host.
    pub loopback: bool,
    /// Whether the system knows the option that lets sockets share a port.
    pub reuse_port: bool,
    /// Whether the system wants a socket with one interface bound to that
    /// interface's address.
    pub bind_to_interface: bool,
    /// The selection of interfaces.
    pub interface: TargetInterface<Iface>,
    /// The interfaces of the family that the system lists, loopback left
    /// out.
    pub candidates: Vec<Iface>,
}

/// Whether a set-up went through with these outcomes of its attempts: the
/// options were set, the joins were made or, where all interfaces were
/// selected, tried with these outcomes, and the last steps were done for
/// the interfaces that were joined.
pub open spec fn spec_set_up_done<Iface: InterfaceId, F: Fn(SetupOp<Iface>) -> Result<(), IoError>>(
    perform: F,
    plan: SetupPlan<Iface>,
    joined: Seq<bool>,
) -> bool {
    let retained = match spec_join_plan(plan.interface, plan.candidates@) {
        JoinsView::Required(_) => Seq::empty(),
        JoinsView::BestEffort(tried) => spec_retained(tried, joined),
    };
    &&& spec_all_done(
        perform,
        spec_setup_options(plan.family, plan.loopback, plan.reuse_port),
    )
    &&& match spec_join_plan(plan.interface, plan.candidates@) {
        JoinsView::Required(ops) => spec_all_done(perform, ops),
        JoinsView::BestEffort(tried) => spec_attempted(perform, tried, joined),
    }
    &&& spec_all_done(
        perform,
        spec_finish_ops(plan.interface, retained, plan.bind_to_interface),
    )
}

/// Whether a set-up ended with an error: a step that must succeed failed
/// with it after all before it were done. That step is an option, a join
/// that was asked for, or one of the last steps after the attempts.
pub open spec fn spec_set_up_failed<
    Iface: InterfaceId,
    F: Fn(SetupOp<Iface>) -> Result<(), IoError>,
>(perform: F, plan: SetupPlan<Iface>, err: IoError) -> bool {
    let options = spec_setup_options(plan.family, plan.loopback, plan.reuse_port);
    ||| spec_failed(perform, options, err)
    ||| spec_all_done(perform, options) && match spec_join_plan(
        plan.interface,
        plan.candidates@,
    ) {
        JoinsView::Required(ops) => {
            ||| spec_failed(perform, ops, err)
            ||| spec_all_done(perform, ops) && spec_failed(
                perform,
                spec_finish_ops(plan.interface, Seq::empty(), plan.bind_to_interface),
                err,
            )
        },
        JoinsView::BestEffort(tried) => exists|joined: Seq<bool>|
            spec_attempted(perform, tried, joined) && spec_failed(
                perform,
                spec_finish_ops(
                    plan.interface,
                    spec_retained(tried, joined),
                    plan.bind_to_interface,
                ),
                err,
            ),
    }
}

/// The interfaces of a socket whose set-up went through with these
/// outcomes of its attempts.
pub open spec fn spec_set_up_ifaces<Iface: InterfaceId>(plan: SetupPlan<Iface>, joined: Seq<bool>) -> Seq<
    Iface,
> {
    spec_final_ifaces(
        plan.interface,
        match spec_join_plan(plan.interface, plan.candidates@) {
            JoinsView::Required(_) => Seq::empty(),
            JoinsView::BestEffort(tried) => spec_retained(tried, joined),
        },
    )
}

/// Sets a socket up, step by step: the options, the joins, the bind and the
/// probe. `perform` takes each step on the socket and tells how it went.
/// The set-up ends with the error of the first step that must succeed and
/// does not; the attempts to join each of all interfaces may fail. Hands
/// back the interfaces to mark the socket with.
pub fn set_up<Iface: InterfaceId, F: Fn(SetupOp<Iface>) -> Result<(), IoError>>(
    plan: &SetupPlan<Iface>,
    perform: &F,
) -> (r: Result<Vec<Iface>, IoError>)
    requires
        forall|op: SetupOp<Iface>| perform.requires((op,)),
    ensures
        match r {
            Ok(ifaces) => spec_distinct_ifaces(ifaces@) && exists|joined: Seq<bool>|
                spec_set_up_done(perform, *plan, joined) && ifaces@ == spec_set_up_ifaces(
                    *plan,
                    joined,
                ),
            Err(err) => spec_set_up_failed(perform, *plan, err),
        },
{
    let options = setup_options::<Iface>(plan.family, plan.loopback, plan.reuse_port);
    match run(&options, perform) {
        Ok(()) => {},
        Err(err) => {
            return Err(err);
        },
    }
    let mut joined: Vec<bool> = Vec::new();
    let retained = match join_plan(&plan.interface, &plan.candidates) {
        Joins::Required(joins) => {
            match run(&joins, perform) {
                Ok(()) => {},
                Err(err) => {
                    return Err(err);
                },
            }
            Vec::new()
        },
        Joins::BestEffort(tried) => {
            let mut i: usize = 0;
            while i < tried.len()
                invariant
                    0 <= i <= tried@.len(),
                    forall|op: SetupOp<Iface>| perform.requires((op,)),
                    spec_attempted(perform, tried@.subrange(0, i as int), joined@),
                decreases tried@.len() - i,
            {
                let steps = attempt(tried[i]);
                let ghost before = joined@;
                let outcome = run(&steps, perform);
                joined.push(outcome.is_ok());
                proof {
                    let now = tried@.subrange(0, i + 1);
                    assert forall|k: int| 0 <= k < now.len() implies if #[trigger] joined@[k] {
                        spec_all_done(perform, spec_attempt(now[k]))
                    } else {
                        exists|err: IoError| spec_failed(perform, spec_attempt(now[k]), err)
                    } by {
                        if k < i {
                            assert(joined@[k] == before[k]);
                            assert(now[k] == tried@.subrange(0, i as int)[k]);
                        } else {
                            assert(now[k] == tried@[i as int]);
                            if outcome is Err {
                                assert(spec_failed(perform, spec_attempt(now[k]), outcome->Err_0));
                            }
                        }
                    }
                }
                i += 1;
            }
            assert(tried@.subrange(0, i as int) =~= tried@);
            retain_joined(&tried, &joined)
        },
    };
    let ghost kept = retained@;
    let end = finish(&plan.interface, retained, plan.bind_to_interface);
    match run(&end.ops, perform) {
        Ok(()) => {
            assert(spec_set_up_done(perform, *plan, joined@));
            assert(end.ifaces@ == spec_set_up_ifaces(*plan, joined@));
            Ok(end.ifaces)
        },
        Err(err) => {
            proof {
                if spec_join_plan(plan.interface, plan.candidates@) is BestEffort {
                    let tried = spec_join_plan(plan.interface, plan.candidates@)->BestEffort_0;
                    assert(spec_attempted(perform, tried, joined@) && spec_failed(
                        perform,
                        spec_finish_ops(
                            plan.interface,
                            spec_retained(tried, joined@),
                            plan.bind_to_interface,
                        ),
                        err,
                    ));
                } else {
                    assert(kept =~= Seq::<Iface>::empty());
                }
            }
            Err(err)
        },
    }
}

} // verus!
