use smolshim::addr::{loopback_v4, HostAddr, SockAddr};
use smolshim::shim::{
    accept_decision, accept_step, connect_step, do_bind, open_connection, peer_addr, poll_action,
    read_action, read_step, shutdown_socket, write_step, AcceptStep, ConnectStep, PollAction,
    ReadAction, ReadStep, ShimError, ShutdownHow, WriteStep, CONNECT_LOCAL_PORT,
    SOCKET_BUFFER_LEN,
};
use smolshim::smol::RecvFailure;
use smoltcp::iface::{Config, Interface, SocketHandle, SocketSet};
use smoltcp::phy::{Loopback, Medium};
use smoltcp::socket::tcp::{Socket, State};
use smoltcp::time::Instant;
use smoltcp::wire::{EthernetAddress, IpAddress, IpCidr};

fn loopback_interface(prefix: u8) -> (Interface, Loopback) {
    let config = Config::new(EthernetAddress([0x02, 0x00, 0x00, 0x00, 0x00, 0x01]).into());
    let mut device = Loopback::new(Medium::Ethernet);
    let mut iface = Interface::new(config, &mut device, Instant::from_millis(0));
    iface.update_ip_addrs(|addrs| {
        addrs.push(IpCidr::new(IpAddress::v4(127, 0, 0, 1), prefix)).unwrap();
    });
    (iface, device)
}

fn v4(a: u8, b: u8, c: u8, d: u8, port: u16) -> SockAddr {
    SockAddr { host: HostAddr::V4([a, b, c, d]), port }
}

#[test]
fn error_messages() {
    assert_eq!(ShimError::Listening.message(), "listening error");
    assert_eq!(ShimError::Accept.message(), "accept error");
    assert_eq!(ShimError::Read.message(), "read error");
    assert_eq!(ShimError::Write.message(), "write error");
    assert_eq!(ShimError::Connection.message(), "connection error");
}

#[test]
fn loopback_address() {
    assert_eq!(loopback_v4(8080), v4(127, 0, 0, 1, 8080));
}

#[test]
fn bind_listens_on_the_given_port() {
    let (sock, port, local) = do_bind(Some(vec![v4(127, 0, 0, 1, 8080)])).unwrap();
    assert_eq!(port, 8080);
    assert_eq!(local, v4(127, 0, 0, 1, 8080));
    assert_eq!(sock.state(), State::Listen);
    assert_eq!(sock.recv_capacity(), SOCKET_BUFFER_LEN);
    assert_eq!(sock.send_capacity(), SOCKET_BUFFER_LEN);
}

#[test]
fn bind_tries_each_address_until_one_listens() {
    let (sock, port, local) =
        do_bind(Some(vec![v4(127, 0, 0, 1, 0), v4(127, 0, 0, 1, 443), v4(127, 0, 0, 1, 80)])).unwrap();
    assert_eq!(port, 443);
    assert_eq!(local, v4(127, 0, 0, 1, 443));
    assert_eq!(sock.state(), State::Listen);
}

#[test]
fn bind_on_port_zero_is_a_listening_error() {
    assert!(matches!(do_bind(Some(vec![v4(127, 0, 0, 1, 0)])), Err(ShimError::Listening)));
}

#[test]
fn bind_on_no_address_is_a_listening_error() {
    assert!(matches!(do_bind(Some(vec![])), Err(ShimError::Listening)));
    assert!(matches!(do_bind(None), Err(ShimError::Listening)));
}

#[test]
fn connect_on_no_usable_address_is_a_connection_error() {
    let (mut iface, _device) = loopback_interface(8);
    assert!(matches!(open_connection(None, iface.context()), Err(ShimError::Connection)));
    assert!(matches!(open_connection(Some(vec![]), iface.context()), Err(ShimError::Connection)));
    assert!(matches!(
        open_connection(Some(vec![v4(127, 0, 0, 1, 0), v4(0, 0, 0, 0, 80)]), iface.context()),
        Err(ShimError::Connection)
    ));
}

#[test]
fn connect_starts_from_the_fixed_local_port() {
    let (mut iface, _device) = loopback_interface(8);
    let (sock, remote) =
        open_connection(Some(vec![v4(127, 0, 0, 1, 0), v4(127, 0, 0, 1, 8081)]), iface.context()).unwrap();
    assert_eq!(remote, v4(127, 0, 0, 1, 8081));
    assert_eq!(sock.state(), State::SynSent);
    assert_eq!(sock.local_endpoint().unwrap().port, CONNECT_LOCAL_PORT);
    assert_eq!(peer_addr(&sock), Some(v4(127, 0, 0, 1, 8081)));
}

#[test]
fn accept_decisions() {
    let a = v4(10, 0, 0, 2, 1234);
    assert_eq!(accept_decision(false, None), AcceptStep::Wait);
    assert_eq!(accept_decision(false, Some(a)), AcceptStep::Wait);
    assert_eq!(accept_decision(true, Some(a)), AcceptStep::Ready(a));
    assert_eq!(accept_decision(true, None), AcceptStep::NoRemote);
}

#[test]
fn read_actions() {
    assert_eq!(read_action(true, true), ReadAction::EndOfStream);
    assert_eq!(read_action(true, false), ReadAction::EndOfStream);
    assert_eq!(read_action(false, true), ReadAction::Receive);
    assert_eq!(read_action(false, false), ReadAction::Wait);
}

#[test]
fn poll_actions() {
    assert_eq!(poll_action(Some(0)), PollAction::PollNow);
    assert_eq!(poll_action(Some(1500)), PollAction::WaitMicros(1500));
    assert_eq!(poll_action(None), PollAction::WaitForSignal);
}

#[test]
fn shutdown_marks_the_read_half_for_read_and_both() {
    let (mut sock, _, _) = do_bind(Some(vec![v4(127, 0, 0, 1, 9000)])).unwrap();
    assert!(shutdown_socket(&mut sock, ShutdownHow::Read));
    assert_eq!(sock.state(), State::Listen);
    assert!(!shutdown_socket(&mut sock, ShutdownHow::Write));
    assert_eq!(sock.state(), State::Closed);
    let (mut sock, _, _) = do_bind(Some(vec![v4(127, 0, 0, 1, 9001)])).unwrap();
    assert!(shutdown_socket(&mut sock, ShutdownHow::Both));
    assert_eq!(sock.state(), State::Closed);
}

#[test]
fn bind_on_a_privileged_port() {
    let (sock, port, local) = do_bind(Some(vec![v4(127, 0, 0, 1, 443)])).unwrap();
    assert_eq!((port, local), (443, v4(127, 0, 0, 1, 443)));
    assert_eq!(sock.state(), State::Listen);
}

#[test]
fn connect_steps_during_the_handshake_wait() {
    let (mut iface, _device) = loopback_interface(8);
    let (sock, _) = open_connection(Some(vec![v4(127, 0, 0, 1, 8082)]), iface.context()).unwrap();
    assert_eq!(connect_step(&sock), ConnectStep::Wait);
    let (listener, _, _) = do_bind(Some(vec![v4(127, 0, 0, 1, 8083)])).unwrap();
    assert_eq!(connect_step(&listener), ConnectStep::Refused);
}

#[test]
fn connect_to_a_port_nobody_listens_on_is_refused() {
    let (mut iface, mut device) = loopback_interface(8);
    let mut set = SocketSet::new(Vec::new());
    let (sock, _) = open_connection(Some(vec![v4(127, 0, 0, 1, 81)]), iface.context()).unwrap();
    let client: SocketHandle = set.add(sock);
    poll_for(&mut iface, &mut device, &mut set, 0);
    assert_eq!(connect_step(set.get::<Socket>(client)), ConnectStep::Refused);
}

#[test]
fn steps_on_an_idle_socket_wait() {
    let (mut sock, _, _) = do_bind(Some(vec![v4(127, 0, 0, 1, 9002)])).unwrap();
    assert_eq!(accept_step(&sock), AcceptStep::Wait);
    let mut buf = [7u8; 8];
    assert_eq!(read_step(false, &mut sock, &mut buf), ReadStep::Wait);
    assert_eq!(buf, [7u8; 8]);
    assert_eq!(write_step(&mut sock, b"abc"), WriteStep::Wait);
    assert_eq!(peer_addr(&sock), None);
}

#[test]
fn read_after_shutdown_reads_nothing() {
    let (mut sock, _, _) = do_bind(Some(vec![v4(127, 0, 0, 1, 9003)])).unwrap();
    let mut buf = [7u8; 8];
    assert_eq!(read_step(true, &mut sock, &mut buf), ReadStep::Done(0));
    assert_eq!(buf, [7u8; 8]);
}

fn poll_for(iface: &mut Interface, device: &mut Loopback, set: &mut SocketSet<'static>, from: i64) {
    for i in 0..40 {
        iface.poll(Instant::from_millis(from + i * 10), device, set);
    }
}

#[test]
fn accept_read_and_write_over_loopback() {
    let (mut iface, mut device) = loopback_interface(8);
    let mut set = SocketSet::new(Vec::new());
    let (listener, port, _) = do_bind(Some(vec![v4(127, 0, 0, 1, 7070)])).unwrap();
    let server: SocketHandle = set.add(listener);
    let (client_sock, _) = open_connection(Some(vec![v4(127, 0, 0, 1, port)]), iface.context()).unwrap();
    let client: SocketHandle = set.add(client_sock);
    poll_for(&mut iface, &mut device, &mut set, 0);

    assert_eq!(
        accept_step(set.get::<Socket>(server)),
        AcceptStep::Ready(v4(127, 0, 0, 1, CONNECT_LOCAL_PORT))
    );
    assert_eq!(peer_addr(set.get::<Socket>(client)), Some(v4(127, 0, 0, 1, 7070)));

    assert_eq!(write_step(set.get_mut::<Socket>(client), b"hello"), WriteStep::Done(5));
    poll_for(&mut iface, &mut device, &mut set, 1000);

    let mut buf = [0u8; 16];
    assert_eq!(read_step(false, set.get_mut::<Socket>(server), &mut buf), ReadStep::Done(5));
    assert_eq!(&buf[..5], b"hello");
    assert_eq!(&buf[5..], &[0u8; 11]);

    // Nothing more has arrived: the next read waits.
    assert_eq!(read_step(false, set.get_mut::<Socket>(server), &mut buf), ReadStep::Wait);

    // A shut-down read half reads nothing even with data pending.
    assert_eq!(write_step(set.get_mut::<Socket>(client), b"more"), WriteStep::Done(4));
    poll_for(&mut iface, &mut device, &mut set, 2000);
    assert_eq!(read_step(true, set.get_mut::<Socket>(server), &mut buf), ReadStep::Done(0));
    assert_eq!(read_step(false, set.get_mut::<Socket>(server), &mut buf), ReadStep::Done(4));
    assert_eq!(&buf[..4], b"more");
    let _ = RecvFailure::Finished;

    // The client is connected; a read smaller than the queue takes its front.
    assert_eq!(connect_step(set.get::<Socket>(client)), ConnectStep::Connected);
    assert_eq!(write_step(set.get_mut::<Socket>(client), b"abcdef"), WriteStep::Done(6));
    poll_for(&mut iface, &mut device, &mut set, 3000);
    let mut small = [0u8; 4];
    assert_eq!(read_step(false, set.get_mut::<Socket>(server), &mut small), ReadStep::Done(4));
    assert_eq!(&small, b"abcd");
    assert_eq!(read_step(false, set.get_mut::<Socket>(server), &mut small), ReadStep::Done(2));
    assert_eq!(&small, b"efcd");

    // The accepted address is the peer of the accepted socket.
    match accept_step(set.get::<Socket>(server)) {
        AcceptStep::Ready(a) => assert_eq!(peer_addr(set.get::<Socket>(server)), Some(a)),
        other => panic!("unexpected {:?}", other),
    }

    // After the write half is shut down, writing reports it closed.
    assert!(!shutdown_socket(set.get_mut::<Socket>(client), ShutdownHow::Write));
    assert_eq!(write_step(set.get_mut::<Socket>(client), b"x"), WriteStep::Closed);
    // After both halves are shut down, reading is at its end.
    assert!(shutdown_socket(set.get_mut::<Socket>(server), ShutdownHow::Both));
    assert_eq!(write_step(set.get_mut::<Socket>(server), b"x"), WriteStep::Closed);
    assert_eq!(read_step(true, set.get_mut::<Socket>(server), &mut small), ReadStep::Done(0));
}

#[test]
fn write_enqueues_only_what_fits() {
    let (mut iface, mut device) = loopback_interface(8);
    let mut set = SocketSet::new(Vec::new());
    let (listener, _, _) = do_bind(Some(vec![v4(127, 0, 0, 1, 7071)])).unwrap();
    let _server: SocketHandle = set.add(listener);
    let (sock, _) = open_connection(Some(vec![v4(127, 0, 0, 1, 7071)]), iface.context()).unwrap();
    let client: SocketHandle = set.add(sock);
    poll_for(&mut iface, &mut device, &mut set, 0);
    let big = vec![1u8; SOCKET_BUFFER_LEN + 100];
    assert_eq!(write_step(set.get_mut::<Socket>(client), &big), WriteStep::Done(SOCKET_BUFFER_LEN));
    assert_eq!(write_step(set.get_mut::<Socket>(client), &big), WriteStep::Wait);
}

#[test]
fn a_bound_listener_accepts_on_its_port() {
    let (mut iface, mut device) = loopback_interface(8);
    let mut set = SocketSet::new(Vec::new());
    let (listener, port, _) = do_bind(Some(vec![v4(127, 0, 0, 1, 0), v4(127, 0, 0, 1, 443)])).unwrap();
    assert_eq!(port, 443);
    let server: SocketHandle = set.add(listener);
    let (sock, _) = open_connection(Some(vec![v4(127, 0, 0, 1, 443)]), iface.context()).unwrap();
    let client: SocketHandle = set.add(sock);
    poll_for(&mut iface, &mut device, &mut set, 0);
    assert_eq!(connect_step(set.get::<Socket>(client)), ConnectStep::Connected);
    assert_eq!(
        accept_step(set.get::<Socket>(server)),
        AcceptStep::Ready(v4(127, 0, 0, 1, CONNECT_LOCAL_PORT))
    );
}
