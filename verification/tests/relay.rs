use vnt::buffer::BUF_LEN;
use vnt::drain::Io;
use vnt::event::{Action, Event, Phase, Readiness, NOTIFY_VAL, SERVER_VAL};
use vnt::nat_table::Endpoint;
use vnt::packet::IpV4Packet;
use vnt::relay::Relay;
use vnt::shutdown::Shutdown;
use vnt::tcp_proxy::TcpProxy;

const CLIENT: Endpoint = Endpoint { ip: 0x0a00_0001, port: 5000 };
const SERVER: Endpoint = Endpoint { ip: 0x0a00_0002, port: 443 };

fn readable() -> Readiness {
    Readiness { readable: true, writable: false, read_closed: false, write_closed: false }
}

fn writable() -> Readiness {
    Readiness { readable: false, writable: true, read_closed: false, write_closed: false }
}

fn ready(token: usize, readiness: Readiness) -> Event {
    Event::Ready { token, readiness }
}

fn data(bytes: &[u8]) -> Event {
    Event::Io(Io::Data(bytes.to_vec()))
}

fn wrote(n: usize) -> Event {
    Event::Io(Io::Wrote(n))
}

fn would_block() -> Event {
    Event::Io(Io::WouldBlock)
}

fn failed() -> Event {
    Event::Io(Io::Failed)
}

fn pattern(len: usize, seed: usize) -> Vec<u8> {
    (0..len).map(|i| ((i * 31 + seed) % 251) as u8).collect()
}

/// An engine that has polled and is going through a batch of events.
fn draining() -> Relay {
    let mut relay = Relay::new();
    assert_eq!(relay.pending(), Action::Poll);
    assert_eq!(relay.tcp_proxy(Event::Polled { stopped: false }), Action::Next);
    relay
}

/// Takes a connection from `CLIENT` through the accept loop, with the
/// handles `src_fd` and `dest_fd`, and leaves the accept loop.
fn accept_flow(relay: &mut Relay, src_fd: usize, dest_fd: usize) {
    assert_eq!(relay.tcp_proxy(ready(SERVER_VAL, readable())), Action::Accept);
    assert_eq!(
        relay.tcp_proxy(Event::Accepted { fd: src_fd, peer: Some(CLIENT) }),
        Action::Lookup { peer: CLIENT }
    );
    assert_eq!(
        relay.tcp_proxy(Event::Target(Some(SERVER))),
        Action::Connect { src_port: CLIENT.port, target: SERVER }
    );
    assert_eq!(relay.tcp_proxy(Event::Connected { fd: dest_fd }), Action::Register { fd: src_fd });
    assert_eq!(relay.tcp_proxy(Event::Done), Action::Register { fd: dest_fd });
    assert_eq!(relay.tcp_proxy(Event::Done), Action::Adopt { src_fd, dest_fd });
    assert_eq!(relay.tcp_proxy(Event::Done), Action::Accept);
    assert_eq!(relay.tcp_proxy(would_block()), Action::Next);
}

/// Feeds `bytes` to the engine as read from `from`, in reads as large as
/// the engine asks for, with a sink that takes everything. Returns what
/// the sink `to` was given.
fn relay_all(relay: &mut Relay, from: usize, to: usize, bytes: &[u8]) -> Vec<u8> {
    let mut delivered = Vec::new();
    let mut rest = bytes;
    let mut action = relay.tcp_proxy(ready(from, readable()));
    loop {
        match action {
            Action::Read { fd, max } => {
                assert_eq!(fd, from);
                assert!(max > 0 && max <= BUF_LEN);
                if rest.is_empty() {
                    action = relay.tcp_proxy(would_block());
                } else {
                    let n = rest.len().min(max);
                    action = relay.tcp_proxy(data(&rest[..n]));
                    rest = &rest[n..];
                }
            }
            Action::Write { fd } => {
                assert_eq!(fd, to);
                let offered = relay.offered().to_vec();
                assert!(!offered.is_empty());
                delivered.extend_from_slice(&offered);
                action = relay.tcp_proxy(wrote(offered.len()));
            }
            Action::Next => break,
            other => panic!("unexpected {:?}", other),
        }
    }
    assert!(rest.is_empty());
    delivered
}

#[test]
fn engine_starts_by_polling() {
    let relay = Relay::new();
    assert_eq!(relay.phase(), Phase::Polling);
    assert_eq!(relay.pending(), Action::Poll);
    assert_eq!(relay.flow_count(), 0);
    assert!(relay.offered().is_empty());
}

#[test]
fn reserved_tokens_are_zero_and_one() {
    assert_eq!(SERVER_VAL, 0);
    assert_eq!(NOTIFY_VAL, 1);
}

#[test]
fn batch_end_leads_back_to_the_poller() {
    let mut relay = draining();
    assert_eq!(relay.tcp_proxy(Event::Drained), Action::Poll);
    assert_eq!(relay.phase(), Phase::Polling);
}

#[test]
fn stop_flag_ends_the_engine() {
    let mut relay = Relay::new();
    assert_eq!(relay.tcp_proxy(Event::Polled { stopped: true }), Action::Exit);
    assert_eq!(relay.phase(), Phase::Stopped { clean: true });
    assert_eq!(relay.tcp_proxy(Event::Polled { stopped: false }), Action::Exit);
}

#[test]
fn wakeup_token_ends_the_engine() {
    let mut relay = draining();
    assert_eq!(relay.tcp_proxy(ready(NOTIFY_VAL, readable())), Action::Exit);
    assert_eq!(relay.phase(), Phase::Stopped { clean: true });
}

#[test]
fn poller_failure_is_fatal() {
    let mut relay = Relay::new();
    assert_eq!(relay.tcp_proxy(failed()), Action::Abort);
    assert_eq!(relay.phase(), Phase::Stopped { clean: false });
    assert_eq!(relay.pending(), Action::Abort);
}

#[test]
fn event_that_does_not_fit_is_asked_again() {
    let mut relay = Relay::new();
    assert_eq!(relay.tcp_proxy(wrote(3)), Action::Poll);
    assert_eq!(relay.tcp_proxy(Event::Drained), Action::Poll);
    assert_eq!(relay.phase(), Phase::Polling);
    let mut relay = draining();
    accept_flow(&mut relay, 7, 8);
    assert_eq!(relay.tcp_proxy(ready(7, readable())), Action::Read { fd: 7, max: BUF_LEN });
    // More bytes than were asked for, or a write's outcome, do not fit.
    assert_eq!(relay.tcp_proxy(data(&vec![0; BUF_LEN + 1])), Action::Read { fd: 7, max: BUF_LEN });
    assert_eq!(relay.tcp_proxy(wrote(1)), Action::Read { fd: 7, max: BUF_LEN });
    assert_eq!(relay.tcp_proxy(data(b"abc")), Action::Write { fd: 8 });
    // A write cannot take more than was on offer.
    assert_eq!(relay.tcp_proxy(wrote(4)), Action::Write { fd: 8 });
    assert_eq!(relay.offered(), b"abc");
}

#[test]
fn unknown_token_is_skipped() {
    let mut relay = draining();
    assert_eq!(relay.tcp_proxy(ready(9, readable())), Action::Next);
    assert_eq!(relay.phase(), Phase::Draining);
}

#[test]
fn accepted_flow_is_entered_in_both_maps() {
    let mut relay = draining();
    accept_flow(&mut relay, 7, 8);
    assert_eq!(relay.flow_count(), 1);
    let flow = relay.flow(7).unwrap();
    assert_eq!((flow.src_fd, flow.dest_fd), (7, 8));
    assert!(flow.src_buf.is_empty() && flow.dest_buf.is_empty());
    assert_eq!((flow.src_state, flow.dest_state), (None, None));
    assert_eq!(relay.mapped(8), Some(7));
    assert_eq!(relay.mapped(7), None);
    assert_eq!(relay.owner(7), Some(7));
    assert_eq!(relay.owner(8), Some(7));
    assert_eq!(relay.owner(9), None);
}

#[test]
fn reserved_handles_are_dropped() {
    for fd in [SERVER_VAL, NOTIFY_VAL] {
        let mut relay = draining();
        assert_eq!(relay.tcp_proxy(ready(SERVER_VAL, readable())), Action::Accept);
        assert_eq!(relay.tcp_proxy(Event::Accepted { fd, peer: Some(CLIENT) }), Action::Accept);
        assert_eq!(relay.flow_count(), 0);
        assert_eq!(
            relay.tcp_proxy(Event::Accepted { fd: 7, peer: Some(CLIENT) }),
            Action::Lookup { peer: CLIENT }
        );
        relay.tcp_proxy(Event::Target(Some(SERVER)));
        assert_eq!(relay.tcp_proxy(Event::Connected { fd }), Action::Accept);
        assert_eq!(relay.flow_count(), 0);
        assert!(relay.flow(fd).is_none());
        assert_eq!(relay.mapped(fd), None);
    }
}

#[test]
fn nat_miss_drops_the_connection() {
    let mut relay = draining();
    relay.tcp_proxy(ready(SERVER_VAL, readable()));
    relay.tcp_proxy(Event::Accepted { fd: 7, peer: Some(CLIENT) });
    assert_eq!(relay.tcp_proxy(Event::Target(None)), Action::Accept);
    assert_eq!(relay.flow_count(), 0);
}

#[test]
fn register_failure_drops_the_connection() {
    for failing in [0, 1] {
        let mut relay = draining();
        relay.tcp_proxy(ready(SERVER_VAL, readable()));
        relay.tcp_proxy(Event::Accepted { fd: 7, peer: Some(CLIENT) });
        relay.tcp_proxy(Event::Target(Some(SERVER)));
        assert_eq!(relay.tcp_proxy(Event::Connected { fd: 8 }), Action::Register { fd: 7 });
        if failing == 1 {
            assert_eq!(relay.tcp_proxy(Event::Done), Action::Register { fd: 8 });
        }
        assert_eq!(relay.tcp_proxy(failed()), Action::Accept);
        assert_eq!(relay.flow_count(), 0);
        assert_eq!(relay.mapped(8), None);
    }
}

#[test]
fn failed_accept_is_tried_again() {
    let mut relay = draining();
    relay.tcp_proxy(ready(SERVER_VAL, readable()));
    assert_eq!(relay.tcp_proxy(failed()), Action::Accept);
    assert_eq!(relay.tcp_proxy(would_block()), Action::Next);
}

#[test]
fn happy_path() {
    // The client's packet for 10.0.0.2:443 is redirected to the listener.
    let mut proxy = TcpProxy::new(40000);
    let mut packet = IpV4Packet::new(vec![
        0x45, 0, 0, 0x28, 0, 1, 0, 0, 0x40, 6, 0, 0, 10, 0, 0, 1, 10, 0, 0, 2, 0x13, 0x88, 0x01,
        0xbb, 0, 0, 0, 0, 0, 0, 0, 0, 0x50, 2, 0x72, 0x10, 0, 0, 0, 0,
    ])
    .unwrap();
    assert_eq!(proxy.recv_handle(&mut packet, CLIENT.ip, 0x7f00_0001), Ok(false));
    assert_eq!(packet.destination_ip(), 0x7f00_0001);
    assert_eq!(packet.tcp_destination_port(), 40000);

    // The relay accepts, and connects to where the client meant to go.
    let mut relay = draining();
    assert_eq!(relay.tcp_proxy(ready(SERVER_VAL, readable())), Action::Accept);
    assert_eq!(
        relay.tcp_proxy(Event::Accepted { fd: 7, peer: Some(CLIENT) }),
        Action::Lookup { peer: CLIENT }
    );
    let target = proxy.lookup(CLIENT);
    assert_eq!(target, Some(SERVER));
    assert_eq!(
        relay.tcp_proxy(Event::Target(target)),
        Action::Connect { src_port: 5000, target: SERVER }
    );
    relay.tcp_proxy(Event::Connected { fd: 8 });
    relay.tcp_proxy(Event::Done);
    relay.tcp_proxy(Event::Done);
    relay.tcp_proxy(Event::Done);
    assert_eq!(relay.tcp_proxy(would_block()), Action::Next);

    // Four KiB go to the server and come back.
    let sent = pattern(4096, 1);
    let at_server = relay_all(&mut relay, 7, 8, &sent);
    assert_eq!(at_server, sent);
    let at_client = relay_all(&mut relay, 8, 7, &at_server);
    assert_eq!(at_client, sent);
    assert_eq!(at_client.len(), 4096);
    assert_eq!(relay.flow_count(), 1);

    // An answer of the listener's leaves as if it came from the server.
    let mut answer = IpV4Packet::new(vec![
        0x45, 0, 0, 0x28, 0, 2, 0, 0, 0x40, 6, 0, 0, 127, 0, 0, 1, 10, 0, 0, 1, 0x9c, 0x40, 0x13,
        0x88, 0, 0, 0, 0, 0, 0, 0, 0, 0x50, 0x12, 0x72, 0x10, 0, 0, 0, 0,
    ])
    .unwrap();
    assert_eq!(proxy.send_handle(&mut answer), Ok(()));
    assert_eq!(answer.source_ip(), SERVER.ip);
    assert_eq!(answer.tcp_source_port(), SERVER.port);
}

#[test]
fn half_close_drain() {
    let mut relay = draining();
    accept_flow(&mut relay, 7, 8);
    let upload = pattern(1 << 20, 3);
    assert_eq!(relay_all(&mut relay, 7, 8, &upload), upload);

    // The client shuts its writing side down: the read finds the end.
    assert_eq!(relay.tcp_proxy(ready(7, readable())), Action::Read { fd: 7, max: BUF_LEN });
    assert_eq!(relay.tcp_proxy(data(&[])), Action::Shutdown { fd: 8, how: Shutdown::Write });
    assert_eq!(relay.tcp_proxy(Event::Done), Action::Next);
    let flow = relay.flow(7).unwrap();
    assert_eq!((flow.src_state, flow.dest_state), (Some(Shutdown::Read), None));

    // The server goes on sending, and the client gets all of it.
    let download = pattern(100 * 1024, 5);
    assert_eq!(relay_all(&mut relay, 8, 7, &download), download);
    assert_eq!(relay.flow_count(), 1);

    // Then the server closes: the flow is over.
    assert_eq!(relay.tcp_proxy(ready(8, readable())), Action::Read { fd: 8, max: BUF_LEN });
    assert_eq!(relay.tcp_proxy(data(&[])), Action::Shutdown { fd: 7, how: Shutdown::Write });
    assert_eq!(relay.tcp_proxy(Event::Done), Action::Close { src_fd: 7, dest_fd: 8 });
    assert_eq!(relay.flow_count(), 0);
    assert!(relay.flow(7).is_none());
    assert_eq!(relay.mapped(8), None);
    assert_eq!(relay.tcp_proxy(Event::Done), Action::Next);
    assert_eq!(relay.tcp_proxy(ready(7, readable())), Action::Next);
    assert_eq!(relay.tcp_proxy(ready(8, readable())), Action::Next);
}

#[test]
fn backpressure() {
    let mut relay = draining();
    accept_flow(&mut relay, 7, 8);
    let stream = pattern(200 * 1024, 9);
    let mut rest = &stream[..];
    let mut delivered: Vec<u8> = Vec::new();

    // The server does not read: the first write would block, and the
    // buffer fills up.
    assert_eq!(relay.tcp_proxy(ready(7, readable())), Action::Read { fd: 7, max: BUF_LEN });
    assert_eq!(relay.tcp_proxy(data(&rest[..1000])), Action::Write { fd: 8 });
    rest = &rest[1000..];
    assert_eq!(relay.tcp_proxy(would_block()), Action::Read { fd: 7, max: BUF_LEN - 1000 });
    assert_eq!(relay.tcp_proxy(data(&rest[..BUF_LEN - 1000])), Action::Next);
    rest = &rest[BUF_LEN - 1000..];
    assert_eq!(relay.flow(7).unwrap().src_buf.len(), BUF_LEN);

    // While it is full, nothing is read from the client.
    assert_eq!(relay.tcp_proxy(ready(7, readable())), Action::Next);
    assert_eq!(relay.flow(7).unwrap().src_buf.len(), BUF_LEN);

    // The server resumes: the buffer is written, and reading goes on.
    let mut action = relay.tcp_proxy(ready(8, writable()));
    loop {
        assert!(relay.flow(7).unwrap().src_buf.len() <= BUF_LEN);
        match action {
            Action::Write { fd: 8 } => {
                let offered = relay.offered().to_vec();
                let n = offered.len().min(3000);
                delivered.extend_from_slice(&offered[..n]);
                action = relay.tcp_proxy(wrote(n));
            }
            Action::Read { fd: 7, max } => {
                if rest.is_empty() {
                    action = relay.tcp_proxy(would_block());
                } else {
                    let n = rest.len().min(max);
                    action = relay.tcp_proxy(data(&rest[..n]));
                    rest = &rest[n..];
                }
            }
            Action::Next => break,
            other => panic!("unexpected {:?}", other),
        }
    }
    assert_eq!(delivered.len(), 200 * 1024);
    assert_eq!(delivered, stream);
    assert!(relay.flow(7).unwrap().src_buf.is_empty());
}

#[test]
fn connect_failure() {
    let mut relay = draining();
    relay.tcp_proxy(ready(SERVER_VAL, readable()));
    let target = Endpoint { ip: SERVER.ip, port: 81 };
    relay.tcp_proxy(Event::Accepted { fd: 7, peer: Some(CLIENT) });
    assert_eq!(
        relay.tcp_proxy(Event::Target(Some(target))),
        Action::Connect { src_port: 5000, target }
    );
    assert_eq!(relay.tcp_proxy(failed()), Action::Accept);
    assert_eq!(relay.flow_count(), 0);
    assert!(relay.flow(7).is_none());
    assert_eq!(relay.owner(7), None);
}

#[test]
fn ipv6_accept() {
    let mut relay = draining();
    relay.tcp_proxy(ready(SERVER_VAL, readable()));
    assert_eq!(relay.tcp_proxy(Event::Accepted { fd: 7, peer: None }), Action::Accept);
    assert_eq!(relay.phase(), Phase::Accepting);
    assert_eq!(relay.flow_count(), 0);
    assert!(relay.flow(7).is_none());
}

#[test]
fn stop_mid_flow() {
    let mut relay = draining();
    accept_flow(&mut relay, 7, 8);
    accept_flow(&mut relay, 9, 10);
    // Each flow holds bytes in both directions that the sinks did not take.
    for (src, dest) in [(7, 8), (9, 10)] {
        for (from, to) in [(src, dest), (dest, src)] {
            relay.tcp_proxy(ready(from, readable()));
            assert_eq!(relay.tcp_proxy(data(&pattern(25 * 1024, from))), Action::Write { fd: to });
            relay.tcp_proxy(would_block());
            assert_eq!(relay.tcp_proxy(would_block()), Action::Next);
        }
        let flow = relay.flow(src).unwrap();
        assert_eq!(flow.src_buf.len() + flow.dest_buf.len(), 50 * 1024);
    }
    assert_eq!(relay.tcp_proxy(Event::Drained), Action::Poll);
    assert_eq!(relay.tcp_proxy(Event::Polled { stopped: true }), Action::Exit);
    assert_eq!(relay.phase(), Phase::Stopped { clean: true });
    assert_eq!(relay.pending(), Action::Exit);
}

#[test]
fn write_error_drops_what_waits_and_retires_writing() {
    let mut relay = draining();
    accept_flow(&mut relay, 7, 8);
    relay.tcp_proxy(ready(7, readable()));
    relay.tcp_proxy(data(b"pending"));
    relay.tcp_proxy(would_block());
    assert_eq!(relay.tcp_proxy(would_block()), Action::Next);
    assert_eq!(&relay.flow(7).unwrap().src_buf[..], b"pending");

    assert_eq!(relay.tcp_proxy(ready(8, writable())), Action::Write { fd: 8 });
    assert_eq!(relay.offered(), b"pending");
    assert_eq!(relay.tcp_proxy(failed()), Action::Shutdown { fd: 7, how: Shutdown::Read });
    let flow = relay.flow(7).unwrap();
    assert!(flow.src_buf.is_empty());
    assert_eq!((flow.src_state, flow.dest_state), (None, Some(Shutdown::Write)));
    assert_eq!(relay.tcp_proxy(Event::Done), Action::Next);
    assert_eq!(relay.flow_count(), 1);
}

#[test]
fn closed_halves_are_handled_in_order() {
    let mut relay = draining();
    accept_flow(&mut relay, 7, 8);
    let all =
        Readiness { readable: false, writable: false, read_closed: true, write_closed: true };
    assert_eq!(relay.tcp_proxy(ready(8, all)), Action::Shutdown { fd: 7, how: Shutdown::Write });
    assert_eq!(relay.tcp_proxy(Event::Done), Action::Shutdown { fd: 7, how: Shutdown::Read });
    let flow = relay.flow(7).unwrap();
    assert_eq!((flow.src_state, flow.dest_state), (None, Some(Shutdown::Both)));
    // The accepted socket's state is not set yet: the flow stays.
    assert_eq!(relay.tcp_proxy(Event::Done), Action::Next);
    assert_eq!(relay.flow_count(), 1);
    // Once it is, an empty buffer is enough to end the flow.
    let closed =
        Readiness { readable: false, writable: false, read_closed: true, write_closed: false };
    assert_eq!(relay.tcp_proxy(ready(7, closed)), Action::Shutdown { fd: 8, how: Shutdown::Write });
    assert_eq!(relay.tcp_proxy(Event::Done), Action::Close { src_fd: 7, dest_fd: 8 });
    assert_eq!(relay.flow_count(), 0);
    assert_eq!(relay.mapped(8), None);
}

#[test]
fn closing_one_flow_leaves_the_other() {
    let mut relay = draining();
    accept_flow(&mut relay, 7, 8);
    accept_flow(&mut relay, 9, 10);
    relay.close(7);
    assert_eq!(relay.flow_count(), 1);
    assert!(relay.flow(7).is_none());
    assert_eq!(relay.mapped(8), None);
    assert_eq!(relay.mapped(10), Some(9));
    assert_eq!(relay.owner(10), Some(9));
    relay.close(8);
    relay.close(7);
    assert_eq!(relay.flow_count(), 1);
}
