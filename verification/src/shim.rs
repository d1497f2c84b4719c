//! The socket-level logic of a std-like TCP listener and stream over smoltcp:
//! binding, connecting, and one step of accept, read and write, each over a
//! socket that the caller's network engine hands over; and the engine's
//! choice of when to poll next.

use vstd::prelude::*;
use smoltcp::iface::Context;
use smoltcp::socket::tcp::Socket;
use crate::addr::{host_is_unspecified, SockAddr};
use crate::smol::{
    connect_allowed, context_has_source_for, socket_abort, socket_can_recv, socket_can_send, socket_close,
    socket_connect, socket_is_active, socket_listen, socket_new, socket_recv_slice,
    socket_remote_endpoint, socket_send_slice, socket_state, tcp_close_state, tcp_is_active,
    tcp_is_open, tcp_listen_port, tcp_local, tcp_may_send, tcp_remote, tcp_reset_from, tcp_rx_capacity,
    tcp_rx_queue, tcp_same_but_state, tcp_state, tcp_tx_capacity, tcp_tx_queue, ConnectFailure,
    ListenFailure, RecvFailure, TcpState,
};

verus! {

/// Size of the receive and of the transmit buffer of every socket.
pub const SOCKET_BUFFER_LEN: usize = 4096;

/// The local port from which every outgoing connection is made.
pub const CONNECT_LOCAL_PORT: u16 = 49152;

/// The errors the shim reports; each stands for an `io::Error` of kind
/// `Other` with the message that `message` gives.
#[derive(Clone, Copy, Debug, PartialEq, Eq)]
pub enum ShimError {
    Listening,
    Accept,
    Read,
    Write,
    Connection,
}

/// The message of each error.
pub open spec fn shim_error_message(e: ShimError) -> Seq<char> {
    match e {
        ShimError::Listening => "listening error"@,
        ShimError::Accept => "accept error"@,
        ShimError::Read => "read error"@,
        ShimError::Write => "write error"@,
        ShimError::Connection => "connection error"@,
    }
}

impl ShimError {
    /// The message that goes with this error.
    pub fn message(&self) -> (m: &'static str)
        ensures
            m@ == shim_error_message(*self),
    {
        match self {
            ShimError::Listening => "listening error",
            ShimError::Accept => "accept error",
            ShimError::Read => "read error",
            ShimError::Write => "write error",
            ShimError::Connection => "connection error",
        }
    }
}

/// Which halves of a connection to shut down (std's `Shutdown`).
#[derive(Clone, Copy, Debug, PartialEq, Eq)]
pub enum ShutdownHow {
    Read,
    Write,
    Both,
}

/// The addresses that an address argument resolved to, in order; none when
/// it did not resolve.
pub open spec fn resolved(addrs: Option<Vec<SockAddr>>) -> Seq<SockAddr> {
    match addrs {
        Some(v) => v@,
        None => Seq::empty(),
    }
}

/// A socket freshly made by `new_tcp_socket`, as far as the state, the
/// endpoints and the buffers go: closed, unconnected, empty buffers of
/// `SOCKET_BUFFER_LEN` bytes.
pub open spec fn fresh_socket(sock: Socket<'static>) -> bool {
    &&& tcp_state(sock) == TcpState::Closed
    &&& tcp_remote(sock) is None
    &&& tcp_local(sock) is None
    &&& tcp_rx_queue(sock).len() == 0
    &&& tcp_tx_queue(sock).len() == 0
    &&& tcp_rx_capacity(sock) == SOCKET_BUFFER_LEN
    &&& tcp_tx_capacity(sock) == SOCKET_BUFFER_LEN
}

/// A closed TCP socket with buffers of `SOCKET_BUFFER_LEN` bytes.
fn new_tcp_socket() -> (sock: Socket<'static>)
    ensures
        fresh_socket(sock),
{
    let rx: Vec<u8> = vec![0u8; SOCKET_BUFFER_LEN];
    let tx: Vec<u8> = vec![0u8; SOCKET_BUFFER_LEN];
    socket_new(rx, tx)
}

/// What one attempt to listen on `addr` yields: the port and address
/// listened on when smoltcp accepted, else nothing, and the next address is tried.
pub fn listen_attempt_outcome(addr: SockAddr, listened: Result<(), ListenFailure>) -> (r: Option<(u16, SockAddr)>)
    ensures
        listened is Ok ==> r == Some((addr.port, addr)),
        listened is Err ==> r is None,
{
    match listened {
        Ok(()) => Some((addr.port, addr)),
        Err(_) => None,
    }
}

/// The failure reported when no address could be listened on: an invalid
/// state when there was none to try, else unaddressable.
pub fn no_address_failure(tried: usize) -> (r: ListenFailure)
    ensures
        tried == 0 ==> r == ListenFailure::InvalidState,
        tried > 0 ==> r == ListenFailure::Unaddressable,
{
    if tried == 0 {
        ListenFailure::InvalidState
    } else {
        ListenFailure::Unaddressable
    }
}

/// The first of `s` with a nonzero port: the address that a socket that is
/// not open comes to listen on when each is tried in turn.
pub open spec fn first_listenable(s: Seq<SockAddr>) -> Option<SockAddr>
    decreases s.len(),
{
    if s.len() == 0 {
        None
    } else if s[0].port != 0 {
        Some(s[0])
    } else {
        first_listenable(s.drop_first())
    }
}

/// Trying the addresses from index `i` on: the first one listenable from
/// there is `s[i]` when its port is nonzero, else the first from `i + 1`.
proof fn lemma_first_listenable_step(s: Seq<SockAddr>, i: int)
    requires
        0 <= i < s.len(),
    ensures
        first_listenable(s.skip(i)) == if s[i].port != 0 {
            Some(s[i])
        } else {
            first_listenable(s.skip(i + 1))
        },
{
    assert(s.skip(i).drop_first() =~= s.skip(i + 1));
    assert(s.skip(i)[0] == s[i]);
}

/// Puts `sock` in the listening state on the port of the first of `addrs`
/// on which smoltcp lets it listen, trying each in turn; returns that port
/// and address. On a socket that is not open that is the first address with
/// a nonzero port.
pub fn listen_on_first(addrs: Option<Vec<SockAddr>>, sock: &mut Socket<'static>) -> (r: Result<(u16, SockAddr), ListenFailure>)
    ensures
        r matches Ok((p, a)) ==> resolved(addrs).contains(a) && p == a.port && p != 0,
        r is Ok ==> tcp_state(*final(sock)) == TcpState::Listen,
        r matches Ok((p, a)) ==> tcp_listen_port(*final(sock)) == p,
        r matches Err(ListenFailure::InvalidState) <==> resolved(addrs).len() == 0,
        r is Err && resolved(addrs).len() > 0 ==> r matches Err(ListenFailure::Unaddressable),
        r is Err ==> *final(sock) == *old(sock),
        (forall|i: int| 0 <= i < resolved(addrs).len() ==> (#[trigger] resolved(addrs)[i]).port == 0) ==> r is Err,
        !tcp_is_open(tcp_state(*old(sock))) ==> (r is Ok <==> first_listenable(resolved(addrs)) is Some),
        !tcp_is_open(tcp_state(*old(sock))) ==> (r matches Ok((p, a)) ==> first_listenable(resolved(addrs)) == Some(a)),
        !tcp_is_open(tcp_state(*old(sock))) && r is Ok ==> tcp_reset_from(*old(sock), *final(sock)),
{
    let ghost s = resolved(addrs);
    let ghost s0 = *sock;
    let v: Vec<SockAddr> = match addrs {
        Some(v) => v,
        None => Vec::new(),
    };
    assert(s.skip(0) =~= s);
    let mut i: usize = 0;
    while i < v.len()
        invariant
            i <= v.len(),
            v@ == s,
            s == resolved(addrs),
            *sock == s0,
            s0 == *old(sock),
            !tcp_is_open(tcp_state(s0)) ==> first_listenable(s.skip(i as int)) == first_listenable(s),
        decreases v.len() - i,
    {
        let addr = v[i];
        proof {
            lemma_first_listenable_step(s, i as int);
        }
        let listened = socket_listen(sock, addr.port);
        match listen_attempt_outcome(addr, listened) {
            Some(found) => {
                assert(v@[i as int] == addr);
                return Ok(found);
            },
            None => {},
        }
        i = i + 1;
    }
    proof {
        assert(s.skip(v.len() as int).len() == 0);
        if s.len() > 0 && (forall|j: int| 0 <= j < s.len() ==> (#[trigger] s[j]).port == 0) {
            assert(s[0].port == 0);
        }
    }
    Err(no_address_failure(v.len()))
}

/// A socket that smoltcp has just put in the listening state on `port`: no
/// endpoints, empty buffers of `SOCKET_BUFFER_LEN` bytes.
pub open spec fn fresh_listener(sock: Socket<'static>, port: u16) -> bool {
    &&& tcp_state(sock) == TcpState::Listen
    &&& tcp_listen_port(sock) == port
    &&& tcp_remote(sock) is None
    &&& tcp_local(sock) is None
    &&& tcp_rx_queue(sock).len() == 0
    &&& tcp_tx_queue(sock).len() == 0
    &&& tcp_rx_capacity(sock) == SOCKET_BUFFER_LEN
    &&& tcp_tx_capacity(sock) == SOCKET_BUFFER_LEN
}

/// A new socket listening on the first of `addrs` with a nonzero port, with
/// that port and address; a listening error when there is none.
pub fn do_bind(addrs: Option<Vec<SockAddr>>) -> (r: Result<(Socket<'static>, u16, SockAddr), ShimError>)
    ensures
        r matches Err(e) ==> e == ShimError::Listening,
        r is Ok <==> first_listenable(resolved(addrs)) is Some,
        r matches Ok((sock, p, a)) ==> first_listenable(resolved(addrs)) == Some(a) && p == a.port && fresh_listener(sock, p),
        r matches Ok((sock, p, a)) ==> tcp_state(sock) == TcpState::Listen && tcp_listen_port(sock) == a.port,
{
    let mut sock = new_tcp_socket();
    match listen_on_first(addrs, &mut sock) {
        Ok((port, local_address)) => Ok((sock, port, local_address)),
        Err(_) => Err(ShimError::Listening),
    }
}

/// Whether an address can be connected to at all: smoltcp refuses port 0
/// and an unspecified host.
pub open spec fn connectable(a: SockAddr) -> bool {
    a.port != 0 && !host_is_unspecified(a.host)
}

/// The first of `s` that is connectable and for which `cx` has a source
/// address: the address that a socket that is not open comes to connect to
/// when each is tried in turn.
pub open spec fn first_connectable(s: Seq<SockAddr>, cx: Context) -> Option<SockAddr>
    decreases s.len(),
{
    if s.len() == 0 {
        None
    } else if connectable(s[0]) && context_has_source_for(cx, s[0].host) {
        Some(s[0])
    } else {
        first_connectable(s.drop_first(), cx)
    }
}

/// Trying the addresses from index `i` on: the first one connectable from
/// there is `s[i]` when it is connectable, else the first from `i + 1`.
proof fn lemma_first_connectable_step(s: Seq<SockAddr>, cx: Context, i: int)
    requires
        0 <= i < s.len(),
    ensures
        first_connectable(s.skip(i), cx) == if connectable(s[i]) && context_has_source_for(cx, s[i].host) {
            Some(s[i])
        } else {
            first_connectable(s.skip(i + 1), cx)
        },
{
    assert(s.skip(i).drop_first() =~= s.skip(i + 1));
    assert(s.skip(i)[0] == s[i]);
}

/// `sock` has started connecting to `remote` from `local_port`.
pub open spec fn connecting_to(sock: Socket<'static>, remote: SockAddr, local_port: u16) -> bool {
    &&& tcp_state(sock) == TcpState::SynSent
    &&& tcp_remote(sock) == Some(remote)
    &&& tcp_local(sock) matches Some(l) && l.port == local_port
}

/// Starts connecting `sock` from `local_port` to the first of `addrs` that
/// smoltcp accepts, trying each in turn. On a socket that is not open and a
/// nonzero local port that is the first connectable address for which `cx`
/// has a source address.
pub fn connect_first(
    addrs: Option<Vec<SockAddr>>,
    sock: &mut Socket<'static>,
    cx: &mut Context,
    local_port: u16,
) -> (r: Result<SockAddr, ConnectFailure>)
    ensures
        r matches Ok(a) ==> resolved(addrs).contains(a) && connectable(a) && local_port != 0,
        r matches Ok(a) ==> connecting_to(*final(sock), a, local_port),
        r matches Err(ConnectFailure::InvalidState) <==> resolved(addrs).len() == 0,
        r is Err && resolved(addrs).len() > 0 ==> r matches Err(ConnectFailure::Unaddressable),
        r is Err ==> *final(sock) == *old(sock) && *final(cx) == *old(cx),
        (local_port == 0 || forall|i: int|
            0 <= i < resolved(addrs).len() ==> !connectable(#[trigger] resolved(addrs)[i])) ==> r is Err,
        tcp_is_open(tcp_state(*old(sock))) ==> r is Err,
        !tcp_is_open(tcp_state(*old(sock))) && local_port != 0 ==> (r is Ok <==> first_connectable(
            resolved(addrs),
            *old(cx),
        ) is Some),
        !tcp_is_open(tcp_state(*old(sock))) && local_port != 0 ==> (r matches Ok(a) ==> first_connectable(
            resolved(addrs),
            *old(cx),
        ) == Some(a)),
        r is Ok ==> tcp_rx_queue(*final(sock)).len() == 0 && tcp_tx_queue(*final(sock)).len() == 0,
        r is Ok ==> tcp_rx_capacity(*final(sock)) == tcp_rx_capacity(*old(sock)),
        r is Ok ==> tcp_tx_capacity(*final(sock)) == tcp_tx_capacity(*old(sock)),
{
    let ghost s = resolved(addrs);
    let ghost s0 = *sock;
    let ghost cx0 = *cx;
    let v: Vec<SockAddr> = match addrs {
        Some(v) => v,
        None => Vec::new(),
    };
    assert(s.skip(0) =~= s);
    let mut i: usize = 0;
    while i < v.len()
        invariant
            i <= v.len(),
            v@ == s,
            s == resolved(addrs),
            *sock == s0,
            s0 == *old(sock),
            *cx == cx0,
            cx0 == *old(cx),
            !tcp_is_open(tcp_state(s0)) && local_port != 0 ==> first_connectable(s.skip(i as int), cx0)
                == first_connectable(s, cx0),
        decreases v.len() - i,
    {
        let addr = v[i];
        proof {
            lemma_first_connectable_step(s, cx0, i as int);
        }
        match socket_connect(sock, cx, addr, local_port) {
            Ok(()) => {
                assert(v@[i as int] == addr);
                return Ok(addr);
            },
            Err(_) => {},
        }
        i = i + 1;
    }
    proof {
        assert(s.skip(v.len() as int).len() == 0);
    }
    if v.len() == 0 {
        Err(ConnectFailure::InvalidState)
    } else {
        Err(ConnectFailure::Unaddressable)
    }
}

/// A new socket that has started connecting from `CONNECT_LOCAL_PORT` to the
/// first connectable address of `addrs` for which the interface context `cx`
/// has a source address; a connection error when there is none.
pub fn open_connection(addrs: Option<Vec<SockAddr>>, cx: &mut Context) -> (r: Result<(Socket<'static>, SockAddr), ShimError>)
    ensures
        r matches Err(e) ==> e == ShimError::Connection,
        r is Ok <==> first_connectable(resolved(addrs), *old(cx)) is Some,
        r matches Ok((sock, a)) ==> first_connectable(resolved(addrs), *old(cx)) == Some(a)
            && connecting_to(sock, a, CONNECT_LOCAL_PORT),
        r matches Ok((sock, a)) ==> tcp_state(sock) == TcpState::SynSent && tcp_remote(sock) == Some(a),
        r matches Ok((sock, a)) ==> tcp_rx_queue(sock).len() == 0 && tcp_tx_queue(sock).len() == 0,
        r matches Ok((sock, a)) ==> tcp_rx_capacity(sock) == SOCKET_BUFFER_LEN && tcp_tx_capacity(sock) == SOCKET_BUFFER_LEN,
        r is Err ==> *final(cx) == *old(cx),
{
    let mut sock = new_tcp_socket();
    match connect_first(addrs, &mut sock, cx, CONNECT_LOCAL_PORT) {
        Ok(remote) => Ok((sock, remote)),
        Err(_) => Err(ShimError::Connection),
    }
}

/// What a blocked `connect` does after looking at its socket.
#[derive(Clone, Copy, Debug, PartialEq, Eq)]
pub enum ConnectStep {
    /// The handshake is under way: wait for the network to make progress.
    Wait,
    /// The connection is established.
    Connected,
    /// The connection was refused or reset.
    Refused,
}

/// The connect step for a socket in state `st`: wait during the handshake;
/// connected once the socket is active past it; refused once it is not active.
pub open spec fn connect_outcome(st: TcpState) -> ConnectStep {
    if st == TcpState::SynSent || st == TcpState::SynReceived {
        ConnectStep::Wait
    } else if tcp_is_active(st) {
        ConnectStep::Connected
    } else {
        ConnectStep::Refused
    }
}

/// Looks at a connecting socket once: whether its handshake is done.
pub fn connect_step(sock: &Socket<'static>) -> (r: ConnectStep)
    ensures
        r == connect_outcome(tcp_state(*sock)),
{
    let st = socket_state(sock);
    match st {
        TcpState::SynSent | TcpState::SynReceived => ConnectStep::Wait,
        TcpState::Closed | TcpState::Listen | TcpState::TimeWait => ConnectStep::Refused,
        _ => ConnectStep::Connected,
    }
}

/// What a blocked `accept` does after looking at its listening socket.
#[derive(Clone, Copy, Debug, PartialEq, Eq)]
pub enum AcceptStep {
    /// No connection yet: wait for the network to make progress.
    Wait,
    /// A connection from this remote endpoint is active.
    Ready(SockAddr),
    /// The socket is active but has no remote endpoint.
    NoRemote,
}

/// The accept step for a socket that is `active` or not and has the given
/// remote endpoint.
pub open spec fn accept_outcome(active: bool, remote: Option<SockAddr>) -> AcceptStep {
    if !active {
        AcceptStep::Wait
    } else {
        match remote {
            Some(a) => AcceptStep::Ready(a),
            None => AcceptStep::NoRemote,
        }
    }
}

/// The accept step for a socket that is `active` or not and has the given
/// remote endpoint.
pub fn accept_decision(active: bool, remote: Option<SockAddr>) -> (r: AcceptStep)
    ensures
        r == accept_outcome(active, remote),
{
    if !active {
        AcceptStep::Wait
    } else {
        match remote {
            Some(a) => AcceptStep::Ready(a),
            None => AcceptStep::NoRemote,
        }
    }
}

/// Looks at a listening socket once: whether a connection has arrived and
/// from where.
pub fn accept_step(sock: &Socket<'static>) -> (r: AcceptStep)
    ensures
        r == accept_outcome(tcp_is_active(tcp_state(*sock)), tcp_remote(*sock)),
{
    let active = socket_is_active(sock);
    let remote = if active {
        socket_remote_endpoint(sock)
    } else {
        None
    };
    accept_decision(active, remote)
}

/// The address that accept reports for a connection is the remote endpoint
/// of the accepted socket, which is what `peer_addr` gives for it.
pub proof fn lemma_accepted_address_is_peer(sock: Socket<'static>)
    ensures
        accept_outcome(tcp_is_active(tcp_state(sock)), tcp_remote(sock)) matches AcceptStep::Ready(a)
            ==> tcp_remote(sock) == Some(a),
{
}

/// What a blocked `read` does after looking at its socket.
#[derive(Clone, Copy, Debug, PartialEq, Eq)]
pub enum ReadStep {
    /// Nothing to read yet: wait for the network to make progress.
    Wait,
    /// This many bytes were read (0 once the read half is shut down).
    Done(usize),
    /// smoltcp refused to hand over the received data.
    Failed(RecvFailure),
}

/// What a read does: report the end of the stream once the read half is
/// shut down, else receive when data is there, else wait.
#[derive(Clone, Copy, Debug, PartialEq, Eq)]
pub enum ReadAction {
    EndOfStream,
    Receive,
    Wait,
}

/// The read action for the given shutdown flag and readiness.
pub fn read_action(rx_shutdown: bool, can_recv: bool) -> (r: ReadAction)
    ensures
        rx_shutdown ==> r == ReadAction::EndOfStream,
        !rx_shutdown && can_recv ==> r == ReadAction::Receive,
        !rx_shutdown && !can_recv ==> r == ReadAction::Wait,
{
    if rx_shutdown {
        ReadAction::EndOfStream
    } else if can_recv {
        ReadAction::Receive
    } else {
        ReadAction::Wait
    }
}

/// The smaller of `a` and `b`.
pub open spec fn min_nat(a: nat, b: nat) -> nat {
    if a < b {
        a
    } else {
        b
    }
}

/// `after` is `before` with the oldest `n` received bytes taken out of its
/// receive buffer, and nothing else changed.
pub open spec fn received(before: Socket<'static>, after: Socket<'static>, n: nat) -> bool {
    &&& tcp_rx_queue(after) == tcp_rx_queue(before).skip(n as int)
    &&& tcp_state(after) == tcp_state(before)
    &&& tcp_remote(after) == tcp_remote(before)
    &&& tcp_local(after) == tcp_local(before)
    &&& tcp_tx_queue(after) == tcp_tx_queue(before)
    &&& tcp_rx_capacity(after) == tcp_rx_capacity(before)
    &&& tcp_tx_capacity(after) == tcp_tx_capacity(before)
}

/// One step of a read into `buf`. Once the read half is shut down it reads
/// 0 bytes and touches nothing. Otherwise, with received bytes `q` queued,
/// it moves the oldest `min(buf.len(), q.len())` of them into the front of
/// `buf`; with none queued it waits and touches nothing.
pub fn read_step(rx_shutdown: bool, sock: &mut Socket<'static>, buf: &mut [u8]) -> (r: ReadStep)
    ensures
        rx_shutdown ==> r == ReadStep::Done(0) && *final(sock) == *old(sock) && final(buf)@ == old(buf)@,
        !rx_shutdown && tcp_rx_queue(*old(sock)).len() == 0 ==> r == ReadStep::Wait && *final(sock) == *old(
            sock,
        ) && final(buf)@ == old(buf)@,
        !rx_shutdown && tcp_rx_queue(*old(sock)).len() > 0 ==> r == ReadStep::Done(
            min_nat(old(buf)@.len(), tcp_rx_queue(*old(sock)).len()) as usize,
        ),
        r matches ReadStep::Done(n) ==> !rx_shutdown ==> final(buf)@ == tcp_rx_queue(*old(sock)).take(n as int)
            + old(buf)@.skip(n as int) && received(*old(sock), *final(sock), n as nat),
{
    let can_recv = if rx_shutdown {
        false
    } else {
        socket_can_recv(sock)
    };
    match read_action(rx_shutdown, can_recv) {
        ReadAction::EndOfStream => ReadStep::Done(0),
        ReadAction::Wait => ReadStep::Wait,
        ReadAction::Receive => match socket_recv_slice(sock, buf) {
            Ok(n) => ReadStep::Done(n),
            Err(e) => ReadStep::Failed(e),
        },
    }
}

/// What a blocked `write` does after looking at its socket.
#[derive(Clone, Copy, Debug, PartialEq, Eq)]
pub enum WriteStep {
    /// No room to send yet: wait for the network to make progress.
    Wait,
    /// This many bytes, a prefix of the data, were enqueued.
    Done(usize),
    /// The transmit half is shut and can never open again.
    Closed,
}

/// Whether a socket in state `st` has, or may still get, an open transmit
/// half: during the handshake, while listening, or while it may send.
pub open spec fn tcp_may_send_later(st: TcpState) -> bool {
    st == TcpState::Listen || st == TcpState::SynSent || st == TcpState::SynReceived || tcp_may_send(st)
}

/// Whether smoltcp lets `sock` send now (`can_send`).
pub open spec fn tcp_can_send(sock: Socket<'static>) -> bool {
    tcp_may_send(tcp_state(sock)) && tcp_tx_queue(sock).len() < tcp_tx_capacity(sock)
}

/// `after` is `before` with the first `n` bytes of `data` appended to its
/// transmit buffer, and nothing else changed.
pub open spec fn sent(before: Socket<'static>, after: Socket<'static>, data: Seq<u8>, n: nat) -> bool {
    &&& tcp_tx_queue(after) == tcp_tx_queue(before) + data.take(n as int)
    &&& tcp_state(after) == tcp_state(before)
    &&& tcp_remote(after) == tcp_remote(before)
    &&& tcp_local(after) == tcp_local(before)
    &&& tcp_rx_queue(after) == tcp_rx_queue(before)
    &&& tcp_rx_capacity(after) == tcp_rx_capacity(before)
    &&& tcp_tx_capacity(after) == tcp_tx_capacity(before)
}

/// One step of a write of `buf`. When the socket can send it enqueues the
/// first `min(buf.len(), free space)` bytes of `buf`. Otherwise it touches
/// nothing, and waits while the transmit half may still open, else reports
/// it closed for good.
pub fn write_step(sock: &mut Socket<'static>, buf: &[u8]) -> (r: WriteStep)
    ensures
        tcp_can_send(*old(sock)) ==> r == WriteStep::Done(
            min_nat(buf@.len(), (tcp_tx_capacity(*old(sock)) - tcp_tx_queue(*old(sock)).len()) as nat) as usize,
        ),
        r matches WriteStep::Done(n) ==> sent(*old(sock), *final(sock), buf@, n as nat),
        !tcp_can_send(*old(sock)) && tcp_may_send_later(tcp_state(*old(sock))) ==> r == WriteStep::Wait,
        !tcp_can_send(*old(sock)) && !tcp_may_send_later(tcp_state(*old(sock))) ==> r == WriteStep::Closed,
        !tcp_can_send(*old(sock)) ==> *final(sock) == *old(sock),
{
    let st = socket_state(sock);
    if socket_can_send(sock) {
        match socket_send_slice(sock, buf) {
            Ok(n) => WriteStep::Done(n),
            Err(_) => WriteStep::Closed,
        }
    } else {
        match st {
            TcpState::Listen | TcpState::SynSent | TcpState::SynReceived | TcpState::Established
            | TcpState::CloseWait => WriteStep::Wait,
            _ => WriteStep::Closed,
        }
    }
}

/// Once the transmit half was closed (`close`) or the connection aborted
/// (CLOSED), it never opens again: a write then reports it closed.
pub proof fn lemma_write_half_stays_shut(st: TcpState)
    ensures
        !tcp_may_send_later(tcp_close_state(st)),
        !tcp_may_send_later(TcpState::Closed),
{
}

/// Shuts down the halves of the connection that `how` names. For `Read` the
/// socket is untouched; for `Write` its transmit half is closed; for `Both`
/// the connection is aborted. The read half is not the socket's to close:
/// the result says whether the caller is to mark it shut down, which it is
/// for `Read` and for `Both`.
pub fn shutdown_socket(sock: &mut Socket<'static>, how: ShutdownHow) -> (closes_read: bool)
    ensures
        closes_read == (how == ShutdownHow::Read || how == ShutdownHow::Both),
        how == ShutdownHow::Read ==> *final(sock) == *old(sock),
        how == ShutdownHow::Write ==> tcp_state(*final(sock)) == tcp_close_state(tcp_state(*old(sock))),
        how == ShutdownHow::Both ==> tcp_state(*final(sock)) == TcpState::Closed,
        how != ShutdownHow::Read ==> tcp_same_but_state(*old(sock), *final(sock)),
{
    match how {
        ShutdownHow::Read => true,
        ShutdownHow::Write => {
            socket_close(sock);
            false
        },
        ShutdownHow::Both => {
            socket_abort(sock);
            true
        },
    }
}

/// The remote endpoint of the socket; none when it is not connected.
pub fn peer_addr(sock: &Socket<'static>) -> (r: Option<SockAddr>)
    ensures
        r == tcp_remote(*sock),
{
    socket_remote_endpoint(sock)
}

/// The addresses that bind and connect try are exactly the resolved ones,
/// in their order, the first one first; none when resolution failed.
pub proof fn lemma_resolved_addresses_in_order(v: Vec<SockAddr>)
    ensures
        resolved(Some(v)).len() == v@.len(),
        forall|i: int| 0 <= i < v@.len() ==> #[trigger] resolved(Some(v))[i] == v@[i],
        resolved(None::<Vec<SockAddr>>).len() == 0,
{
}

/// The address a closed socket comes to listen on is the first one with a
/// nonzero port: it is in the list, its port is nonzero and every address
/// before it has port 0; there is none exactly when every port is 0.
pub proof fn lemma_first_listenable_is_first(s: Seq<SockAddr>)
    ensures
        first_listenable(s) matches Some(a) ==> exists|i: int|
            0 <= i < s.len() && s[i] == a && a.port != 0 && forall|j: int| 0 <= j < i ==> (#[trigger] s[j]).port == 0,
        first_listenable(s) is None <==> forall|i: int| 0 <= i < s.len() ==> (#[trigger] s[i]).port == 0,
    decreases s.len(),
{
    if s.len() > 0 {
        let t = s.drop_first();
        lemma_first_listenable_is_first(t);
        if s[0].port == 0 {
            if let Some(a) = first_listenable(t) {
                let k = choose|k: int|
                    0 <= k < t.len() && t[k] == a && a.port != 0 && forall|j: int| 0 <= j < k ==> (#[trigger] t[j]).port == 0;
                assert(s[k + 1] == a);
                assert forall|j: int| 0 <= j < k + 1 implies (#[trigger] s[j]).port == 0 by {
                    if j > 0 {
                        assert(s[j] == t[j - 1]);
                    }
                }
            }
            assert((forall|i: int| 0 <= i < s.len() ==> (#[trigger] s[i]).port == 0) <==> (forall|i: int|
                0 <= i < t.len() ==> (#[trigger] t[i]).port == 0)) by {
                if forall|i: int| 0 <= i < t.len() ==> (#[trigger] t[i]).port == 0 {
                    assert forall|i: int| 0 <= i < s.len() implies (#[trigger] s[i]).port == 0 by {
                        if i > 0 {
                            assert(s[i] == t[i - 1]);
                        }
                    }
                }
                if forall|i: int| 0 <= i < s.len() ==> (#[trigger] s[i]).port == 0 {
                    assert forall|i: int| 0 <= i < t.len() implies (#[trigger] t[i]).port == 0 by {
                        assert(t[i] == s[i + 1]);
                    }
                }
            }
        } else {
            assert(s[0] == s[0]);
        }
    }
}

/// Bind listens on the first of the given addresses whenever its port is
/// nonzero, whatever follows it.
pub proof fn lemma_bind_takes_the_first_address(v: Vec<SockAddr>)
    requires
        v@.len() > 0,
        v@[0].port != 0,
    ensures
        first_listenable(resolved(Some(v))) == Some(v@[0]),
{
}

/// An address is connectable exactly when smoltcp lets a closed socket
/// connect to it from a nonzero local port (a source address aside).
pub proof fn lemma_connectable_is_what_smoltcp_allows(sock: Socket<'static>, a: SockAddr, local_port: u16)
    requires
        !tcp_is_open(tcp_state(sock)),
        local_port != 0,
    ensures
        connectable(a) <==> connect_allowed(sock, a, local_port),
{
}

/// The address a closed socket comes to connect to from a nonzero local
/// port is the first one to which smoltcp lets it connect with context `cx`;
/// there is none exactly when smoltcp allows none of them.
pub proof fn lemma_first_connectable_is_first(s: Seq<SockAddr>, cx: Context, sock: Socket<'static>, local_port: u16)
    requires
        !tcp_is_open(tcp_state(sock)),
        local_port != 0,
    ensures
        first_connectable(s, cx) matches Some(a) ==> exists|i: int|
            0 <= i < s.len() && s[i] == a && connect_allowed(sock, a, local_port) && context_has_source_for(cx, a.host)
                && forall|j: int|
                0 <= j < i ==> !(connect_allowed(sock, #[trigger] s[j], local_port) && context_has_source_for(cx, s[j].host)),
        first_connectable(s, cx) is None <==> forall|i: int|
            0 <= i < s.len() ==> !(connect_allowed(sock, #[trigger] s[i], local_port) && context_has_source_for(cx, s[i].host)),
    decreases s.len(),
{
    if s.len() > 0 {
        let t = s.drop_first();
        lemma_first_connectable_is_first(t, cx, sock, local_port);
        if !(connect_allowed(sock, s[0], local_port) && context_has_source_for(cx, s[0].host)) {
            if let Some(a) = first_connectable(t, cx) {
                let k = choose|k: int|
                    0 <= k < t.len() && t[k] == a && connect_allowed(sock, a, local_port) && context_has_source_for(cx, a.host)
                        && forall|j: int|
                        0 <= j < k ==> !(connect_allowed(sock, #[trigger] t[j], local_port) && context_has_source_for(cx, t[j].host));
                assert(s[k + 1] == a);
                assert forall|j: int| 0 <= j < k + 1 implies !(connect_allowed(sock, #[trigger] s[j], local_port)
                    && context_has_source_for(cx, s[j].host)) by {
                    if j > 0 {
                        assert(s[j] == t[j - 1]);
                    }
                }
            }
            if forall|i: int| 0 <= i < t.len() ==> !(connect_allowed(sock, #[trigger] t[i], local_port) && context_has_source_for(cx, t[i].host)) {
                assert forall|i: int| 0 <= i < s.len() implies !(connect_allowed(sock, #[trigger] s[i], local_port)
                    && context_has_source_for(cx, s[i].host)) by {
                    if i > 0 {
                        assert(s[i] == t[i - 1]);
                    }
                }
            }
            if forall|i: int| 0 <= i < s.len() ==> !(connect_allowed(sock, #[trigger] s[i], local_port) && context_has_source_for(cx, s[i].host)) {
                assert forall|i: int| 0 <= i < t.len() implies !(connect_allowed(sock, #[trigger] t[i], local_port)
                    && context_has_source_for(cx, t[i].host)) by {
                    assert(t[i] == s[i + 1]);
                }
            }
        } else {
            assert(s[0] == s[0]);
        }
    }
}

/// A socket that smoltcp lets send, with room in its transmit buffer, is
/// ready to send, and only such a socket is: readiness depends on the state
/// and the transmit buffer alone, not on anything received.
pub proof fn lemma_send_readiness(a: Socket<'static>, b: Socket<'static>)
    ensures
        tcp_may_send(tcp_state(a)) && tcp_tx_queue(a).len() < tcp_tx_capacity(a) ==> tcp_can_send(a),
        tcp_can_send(a) ==> tcp_may_send(tcp_state(a)) && tcp_tx_queue(a).len() < tcp_tx_capacity(a),
        tcp_state(a) == tcp_state(b) && tcp_tx_queue(a) == tcp_tx_queue(b) && tcp_tx_capacity(a) == tcp_tx_capacity(b)
            ==> tcp_can_send(a) == tcp_can_send(b),
{
}

/// A write reports the transmit half closed only when smoltcp will not let
/// the socket send: in every state where smoltcp may send, and during the
/// handshake, a write that cannot send now waits.
pub proof fn lemma_closed_only_when_sending_is_over(st: TcpState)
    ensures
        tcp_may_send(st) ==> tcp_may_send_later(st),
        st == TcpState::SynSent || st == TcpState::SynReceived ==> tcp_may_send_later(st),
        tcp_may_send_later(st) ==> tcp_is_open(st),
{
}

/// Accept takes a connection exactly when smoltcp reports the listening
/// socket active, and then reports its remote endpoint.
pub proof fn lemma_accept_takes_active_connections(st: TcpState, remote: Option<SockAddr>)
    ensures
        !tcp_is_active(st) ==> accept_outcome(tcp_is_active(st), remote) == AcceptStep::Wait,
        tcp_is_active(st) && remote is Some ==> accept_outcome(tcp_is_active(st), remote) == AcceptStep::Ready(
            remote->0,
        ),
        accept_outcome(tcp_is_active(st), remote) matches AcceptStep::Ready(a) ==> remote == Some(a),
{
}

/// Connect waits exactly during the handshake, succeeds exactly once the
/// socket is active past it, and fails exactly once it is no longer active.
pub proof fn lemma_connect_outcome(st: TcpState)
    ensures
        connect_outcome(st) == ConnectStep::Wait <==> (st == TcpState::SynSent || st == TcpState::SynReceived),
        connect_outcome(st) == ConnectStep::Connected <==> tcp_is_active(st) && st != TcpState::SynSent && st
            != TcpState::SynReceived,
        connect_outcome(st) == ConnectStep::Refused <==> !tcp_is_active(st),
{
}

/// The smaller of two numbers is at most each of them and is one of them.
pub proof fn lemma_min_nat(a: nat, b: nat)
    ensures
        min_nat(a, b) <= a,
        min_nat(a, b) <= b,
        min_nat(a, b) == a || min_nat(a, b) == b,
{
}

/// What the network engine's polling loop does next, given smoltcp's
/// advisory delay before the next poll.
#[derive(Clone, Copy, Debug, PartialEq, Eq)]
pub enum PollAction {
    /// Poll at once.
    PollNow,
    /// Sleep this many microseconds, or until signalled.
    WaitMicros(u64),
    /// Nothing is due: sleep until signalled.
    WaitForSignal,
}

/// The polling loop's next action for a delay of `delay_micros`
/// microseconds, or none when no poll is due.
pub fn poll_action(delay_micros: Option<u64>) -> (r: PollAction)
    ensures
        delay_micros == Some(0u64) ==> r == PollAction::PollNow,
        delay_micros matches Some(d) ==> (d > 0 ==> r == PollAction::WaitMicros(d)),
        delay_micros is None ==> r == PollAction::WaitForSignal,
{
    match delay_micros {
        Some(0) => PollAction::PollNow,
        Some(d) => PollAction::WaitMicros(d),
        None => PollAction::WaitForSignal,
    }
}

} // verus!
