//! The parts of smoltcp's TCP socket that the shim calls, each behind a
//! trusted item whose contract says what smoltcp 0.11's source shows of it.
//! A socket is seen through names for its state, endpoints, buffer queues
//! and buffer capacities; each call's contract says what it does to them.

use vstd::prelude::*;
use smoltcp::iface::Context;
use smoltcp::socket::tcp::{ConnectError, ListenError, RecvError, Socket, SocketBuffer, State};
use smoltcp::wire::{IpAddress, IpEndpoint, Ipv4Address, Ipv6Address};
use crate::addr::{host_is_unspecified, HostAddr, SockAddr};

verus! {

/// Why smoltcp refused to listen (its `ListenError`).
#[derive(Clone, Copy, Debug, PartialEq, Eq)]
pub enum ListenFailure {
    InvalidState,
    Unaddressable,
}

/// Why smoltcp refused to connect (its `ConnectError`).
#[derive(Clone, Copy, Debug, PartialEq, Eq)]
pub enum ConnectFailure {
    InvalidState,
    Unaddressable,
}

/// Why smoltcp refused to dequeue received data (its `RecvError`).
#[derive(Clone, Copy, Debug, PartialEq, Eq)]
pub enum RecvFailure {
    InvalidState,
    Finished,
}

/// Why smoltcp refused to enqueue data to send (its `SendError`).
#[derive(Clone, Copy, Debug, PartialEq, Eq)]
pub enum SendFailure {
    InvalidState,
}

/// The states of the TCP state machine (smoltcp's `tcp::State`).
#[derive(Clone, Copy, Debug, PartialEq, Eq)]
pub enum TcpState {
    Closed,
    Listen,
    SynSent,
    SynReceived,
    Established,
    FinWait1,
    FinWait2,
    CloseWait,
    Closing,
    LastAck,
    TimeWait,
}

#[verifier::external_type_specification]
#[verifier::external_body]
pub struct ExTcpSocket<'a>(Socket<'a>);

#[verifier::external_type_specification]
#[verifier::external_body]
pub struct ExInterfaceContext(Context);

/// The socket's state (`Socket::state`).
pub uninterp spec fn tcp_state(sock: Socket<'static>) -> TcpState;

/// The socket's remote endpoint (`Socket::remote_endpoint`).
pub uninterp spec fn tcp_remote(sock: Socket<'static>) -> Option<SockAddr>;

/// The socket's local endpoint (`Socket::local_endpoint`).
pub uninterp spec fn tcp_local(sock: Socket<'static>) -> Option<SockAddr>;

/// The port of the endpoint the socket listens on (its `listen_endpoint`;
/// 0 when it was never told to listen).
pub uninterp spec fn tcp_listen_port(sock: Socket<'static>) -> u16;

/// The bytes in the socket's receive buffer, oldest first.
pub uninterp spec fn tcp_rx_queue(sock: Socket<'static>) -> Seq<u8>;

/// The bytes in the socket's transmit buffer, oldest first.
pub uninterp spec fn tcp_tx_queue(sock: Socket<'static>) -> Seq<u8>;

/// The size of the socket's receive buffer (`Socket::recv_capacity`).
pub uninterp spec fn tcp_rx_capacity(sock: Socket<'static>) -> nat;

/// The size of the socket's transmit buffer (`Socket::send_capacity`).
pub uninterp spec fn tcp_tx_capacity(sock: Socket<'static>) -> nat;

/// Whether the interface context has a source address from which to reach
/// `host` (`InterfaceInner::get_source_address` gives one).
pub uninterp spec fn context_has_source_for(cx: Context, host: HostAddr) -> bool;

/// smoltcp's `is_open`: neither closed nor in TIME-WAIT.
pub open spec fn tcp_is_open(st: TcpState) -> bool {
    st != TcpState::Closed && st != TcpState::TimeWait
}

/// smoltcp's `is_active`: neither closed, in TIME-WAIT, nor listening.
pub open spec fn tcp_is_active(st: TcpState) -> bool {
    st != TcpState::Closed && st != TcpState::TimeWait && st != TcpState::Listen
}

/// smoltcp's `may_send`: the transmit half is open.
pub open spec fn tcp_may_send(st: TcpState) -> bool {
    st == TcpState::Established || st == TcpState::CloseWait
}

/// smoltcp's `may_recv`: the receive half is open, or data is waiting.
pub open spec fn tcp_may_recv(st: TcpState, rx: Seq<u8>) -> bool {
    st == TcpState::Established || st == TcpState::FinWait1 || st == TcpState::FinWait2 || rx.len() > 0
}

/// The state that `close` moves a socket in state `st` to.
pub open spec fn tcp_close_state(st: TcpState) -> TcpState {
    match st {
        TcpState::Listen => TcpState::Closed,
        TcpState::SynSent => TcpState::Closed,
        TcpState::SynReceived => TcpState::FinWait1,
        TcpState::Established => TcpState::FinWait1,
        TcpState::CloseWait => TcpState::LastAck,
        other => other,
    }
}

/// The socket's endpoints, queues and capacities are the same in `a` and `b`.
pub open spec fn tcp_same_but_state(a: Socket<'static>, b: Socket<'static>) -> bool {
    &&& tcp_remote(a) == tcp_remote(b)
    &&& tcp_local(a) == tcp_local(b)
    &&& tcp_rx_queue(a) == tcp_rx_queue(b)
    &&& tcp_tx_queue(a) == tcp_tx_queue(b)
    &&& tcp_rx_capacity(a) == tcp_rx_capacity(b)
    &&& tcp_tx_capacity(a) == tcp_tx_capacity(b)
}

/// `b` is `a` after smoltcp's `reset`: no endpoints, empty queues, same
/// capacities.
pub open spec fn tcp_reset_from(a: Socket<'static>, b: Socket<'static>) -> bool {
    &&& tcp_remote(b) is None
    &&& tcp_local(b) is None
    &&& tcp_rx_queue(b).len() == 0
    &&& tcp_tx_queue(b).len() == 0
    &&& tcp_rx_capacity(b) == tcp_rx_capacity(a)
    &&& tcp_tx_capacity(b) == tcp_tx_capacity(a)
}

/// Whether smoltcp lets `sock` connect to `remote` from `local_port`, a
/// source address aside: the socket is not open, both ports are nonzero and
/// the remote host is specified.
pub open spec fn connect_allowed(sock: Socket<'static>, remote: SockAddr, local_port: u16) -> bool {
    &&& !tcp_is_open(tcp_state(sock))
    &&& remote.port != 0
    &&& local_port != 0
    &&& !host_is_unspecified(remote.host)
}

/// `Socket::new` over the ring buffers holding `rx` and `tx`: a closed
/// socket with no endpoints and empty buffers of those sizes. smoltcp panics
/// when the receive buffer exceeds 1 GiB, which `requires` rules out.
#[verifier::external_body]
pub(crate) fn socket_new(rx: Vec<u8>, tx: Vec<u8>) -> (sock: Socket<'static>)
    requires
        rx.len() <= 0x4000_0000,
    ensures
        tcp_state(sock) == TcpState::Closed,
        tcp_remote(sock) is None,
        tcp_local(sock) is None,
        tcp_rx_queue(sock).len() == 0,
        tcp_tx_queue(sock).len() == 0,
        tcp_rx_capacity(sock) == rx.len(),
        tcp_tx_capacity(sock) == tx.len(),
        tcp_listen_port(sock) == 0,
{
    Socket::new(SocketBuffer::new(rx), SocketBuffer::new(tx))
}

/// `Socket::state`.
#[verifier::external_body]
pub(crate) fn socket_state(sock: &Socket<'static>) -> (r: TcpState)
    ensures
        r == tcp_state(*sock),
{
    match sock.state() {
        State::Closed => TcpState::Closed,
        State::Listen => TcpState::Listen,
        State::SynSent => TcpState::SynSent,
        State::SynReceived => TcpState::SynReceived,
        State::Established => TcpState::Established,
        State::FinWait1 => TcpState::FinWait1,
        State::FinWait2 => TcpState::FinWait2,
        State::CloseWait => TcpState::CloseWait,
        State::Closing => TcpState::Closing,
        State::LastAck => TcpState::LastAck,
        State::TimeWait => TcpState::TimeWait,
    }
}

/// `Socket::listen` on `port` (any local address). Port 0 is refused as
/// unaddressable; a socket that is not open is reset and starts listening
/// on `port`; a socket already listening on `port` stays so; a refusal
/// leaves the socket as it was.
#[verifier::external_body]
pub(crate) fn socket_listen(sock: &mut Socket<'static>, port: u16) -> (r: Result<(), ListenFailure>)
    ensures
        port == 0 ==> r matches Err(ListenFailure::Unaddressable),
        r is Err ==> *final(sock) == *old(sock),
        r is Ok ==> tcp_state(*final(sock)) == TcpState::Listen,
        r is Ok ==> tcp_listen_port(*final(sock)) == port,
        port != 0 && !tcp_is_open(tcp_state(*old(sock))) ==> r is Ok && tcp_reset_from(*old(sock), *final(sock)),
{
    match sock.listen(port) {
        Ok(()) => Ok(()),
        Err(ListenError::InvalidState) => Err(ListenFailure::InvalidState),
        Err(ListenError::Unaddressable) => Err(ListenFailure::Unaddressable),
    }
}

/// `Socket::connect` to `remote` from `local_port`. It succeeds exactly on
/// a socket that is not open, with both ports nonzero, a specified remote
/// host and a source address for it in `cx`; the socket is then reset, in
/// SYN-SENT, with those endpoints. A refusal changes neither argument.
#[verifier::external_body]
pub(crate) fn socket_connect(
    sock: &mut Socket<'static>,
    cx: &mut Context,
    remote: SockAddr,
    local_port: u16,
) -> (r: Result<(), ConnectFailure>)
    ensures
        r is Ok <==> connect_allowed(*old(sock), remote, local_port) && context_has_source_for(*old(cx), remote.host),
        r is Err ==> *final(sock) == *old(sock) && *final(cx) == *old(cx),
        r is Ok ==> tcp_state(*final(sock)) == TcpState::SynSent,
        r is Ok ==> tcp_remote(*final(sock)) == Some(remote),
        r is Ok ==> (tcp_local(*final(sock)) matches Some(l) && l.port == local_port),
        r is Ok ==> tcp_rx_queue(*final(sock)).len() == 0 && tcp_tx_queue(*final(sock)).len() == 0,
        r is Ok ==> tcp_rx_capacity(*final(sock)) == tcp_rx_capacity(*old(sock)),
        r is Ok ==> tcp_tx_capacity(*final(sock)) == tcp_tx_capacity(*old(sock)),
{
    let addr = match remote.host {
        HostAddr::V4(o) => IpAddress::Ipv4(Ipv4Address(o)),
        HostAddr::V6(o) => IpAddress::Ipv6(Ipv6Address(o)),
    };
    match sock.connect(cx, IpEndpoint::new(addr, remote.port), local_port) {
        Ok(()) => Ok(()),
        Err(ConnectError::InvalidState) => Err(ConnectFailure::InvalidState),
        Err(ConnectError::Unaddressable) => Err(ConnectFailure::Unaddressable),
    }
}

/// `Socket::is_active`.
#[verifier::external_body]
pub(crate) fn socket_is_active(sock: &Socket<'static>) -> (r: bool)
    ensures
        r == tcp_is_active(tcp_state(*sock)),
{
    sock.is_active()
}

/// `Socket::remote_endpoint`.
#[verifier::external_body]
pub(crate) fn socket_remote_endpoint(sock: &Socket<'static>) -> (r: Option<SockAddr>)
    ensures
        r == tcp_remote(*sock),
{
    match sock.remote_endpoint() {
        None => None,
        Some(IpEndpoint { addr: IpAddress::Ipv4(a), port }) => Some(SockAddr { host: HostAddr::V4(a.0), port }),
        Some(IpEndpoint { addr: IpAddress::Ipv6(a), port }) => Some(SockAddr { host: HostAddr::V6(a.0), port }),
    }
}

/// `Socket::can_recv`: `may_recv` and a nonempty receive buffer, which
/// comes to a nonempty receive buffer.
#[verifier::external_body]
pub(crate) fn socket_can_recv(sock: &Socket<'static>) -> (r: bool)
    ensures
        r == (tcp_rx_queue(*sock).len() > 0),
{
    sock.can_recv()
}

/// `Socket::recv_slice`: unless `may_recv` fails (an error that changes
/// nothing), it moves the oldest `min(data.len(), queued)` received bytes
/// into the front of `data` and returns their number.
#[verifier::external_body]
pub(crate) fn socket_recv_slice(sock: &mut Socket<'static>, data: &mut [u8]) -> (r: Result<usize, RecvFailure>)
    ensures
        r is Ok <==> tcp_may_recv(tcp_state(*old(sock)), tcp_rx_queue(*old(sock))),
        r is Err ==> *final(sock) == *old(sock) && final(data)@ == old(data)@,
        r matches Ok(n) ==> {
            let q = tcp_rx_queue(*old(sock));
            &&& n as int == if old(data)@.len() < q.len() { old(data)@.len() as int } else { q.len() as int }
            &&& final(data)@ == q.take(n as int) + old(data)@.skip(n as int)
            &&& tcp_rx_queue(*final(sock)) == q.skip(n as int)
            &&& tcp_state(*final(sock)) == tcp_state(*old(sock))
            &&& tcp_remote(*final(sock)) == tcp_remote(*old(sock))
            &&& tcp_local(*final(sock)) == tcp_local(*old(sock))
            &&& tcp_tx_queue(*final(sock)) == tcp_tx_queue(*old(sock))
            &&& tcp_rx_capacity(*final(sock)) == tcp_rx_capacity(*old(sock))
            &&& tcp_tx_capacity(*final(sock)) == tcp_tx_capacity(*old(sock))
        },
{
    match sock.recv_slice(data) {
        Ok(n) => Ok(n),
        Err(RecvError::InvalidState) => Err(RecvFailure::InvalidState),
        Err(RecvError::Finished) => Err(RecvFailure::Finished),
    }
}

/// `Socket::can_send`: `may_send` and room in the transmit buffer.
#[verifier::external_body]
pub(crate) fn socket_can_send(sock: &Socket<'static>) -> (r: bool)
    ensures
        r == (tcp_may_send(tcp_state(*sock)) && tcp_tx_queue(*sock).len() < tcp_tx_capacity(*sock)),
{
    sock.can_send()
}

/// `Socket::send_slice`: unless `may_send` fails (an error that changes
/// nothing), it appends the first `min(data.len(), free space)` bytes of
/// `data` to the transmit buffer and returns their number.
#[verifier::external_body]
pub(crate) fn socket_send_slice(sock: &mut Socket<'static>, data: &[u8]) -> (r: Result<usize, SendFailure>)
    ensures
        r is Ok <==> tcp_may_send(tcp_state(*old(sock))),
        r is Err ==> *final(sock) == *old(sock),
        r matches Ok(n) ==> {
            let t = tcp_tx_queue(*old(sock));
            let free = tcp_tx_capacity(*old(sock)) - t.len();
            &&& n as int == if data@.len() < free { data@.len() as int } else { free }
            &&& tcp_tx_queue(*final(sock)) == t + data@.take(n as int)
            &&& tcp_state(*final(sock)) == tcp_state(*old(sock))
            &&& tcp_remote(*final(sock)) == tcp_remote(*old(sock))
            &&& tcp_local(*final(sock)) == tcp_local(*old(sock))
            &&& tcp_rx_queue(*final(sock)) == tcp_rx_queue(*old(sock))
            &&& tcp_rx_capacity(*final(sock)) == tcp_rx_capacity(*old(sock))
            &&& tcp_tx_capacity(*final(sock)) == tcp_tx_capacity(*old(sock))
        },
{
    match sock.send_slice(data) {
        Ok(n) => Ok(n),
        Err(_) => Err(SendFailure::InvalidState),
    }
}

/// `Socket::close`: closes the transmit half, moving the state as
/// `tcp_close_state` says and changing nothing else.
#[verifier::external_body]
pub(crate) fn socket_close(sock: &mut Socket<'static>)
    ensures
        tcp_state(*final(sock)) == tcp_close_state(tcp_state(*old(sock))),
        tcp_same_but_state(*old(sock), *final(sock)),
{
    sock.close()
}

/// `Socket::abort`: moves the socket to CLOSED at once (a reset goes to the
/// remote endpoint on the next poll), changing nothing else.
#[verifier::external_body]
pub(crate) fn socket_abort(sock: &mut Socket<'static>)
    ensures
        tcp_state(*final(sock)) == TcpState::Closed,
        tcp_same_but_state(*old(sock), *final(sock)),
{
    sock.abort()
}

} // verus!
