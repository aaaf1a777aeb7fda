use agent_forward::client::{ClientId, ClientInfo};
use agent_forward::listener::{accept_loop, ListenerEvent, ListenerStep};
use agent_forward::message::{AgentMessage, Halves, Pdu, SocketOp};
use agent_forward::proxy::{AcceptStep, AgentProxy, OpenedChannel};
use agent_forward::pump::{pump_local_to_server, PumpStep};
use agent_forward::socket_path::socket_path;
use agent_forward::timestamp::Timestamp;
use std::path::Path;
use std::sync::Arc;

type Proxy = AgentProxy<&'static str, String>;

fn id(n: u64) -> ClientId {
    ClientId { hostname: format!("host{n}"), id: n, ssh_agent_forward: true }
}

fn sender(name: &str) -> Arc<String> {
    Arc::new(name.to_string())
}

fn active(n: u64) -> Vec<ClientInfo> {
    vec![ClientInfo { client_id: Arc::new(id(n)), last_input: Timestamp { secs: 1, nanos: 0 } }]
}

fn open(proxy: &mut Proxy, n: u64, stream: &'static str) -> OpenedChannel<u8, String> {
    match proxy.handle_accepted(&active(n)) {
        AcceptStep::Split(pending) => proxy
            .complete_accepted(pending, Some(Halves { read_half: 7, write_half: stream }))
            .unwrap(),
        _ => panic!("not accepted"),
    }
}

fn proxy_with(clients: &[u64]) -> Proxy {
    let mut proxy = Proxy::new(b"/run/mux", 42);
    for n in clients {
        proxy.register_client(id(*n), sender(&format!("s{n}")));
    }
    proxy
}

#[test]
fn socket_lies_in_runtime_dir() {
    let proxy = Proxy::new(b"/run/mux", 42);
    assert_eq!(proxy.path(), b"/run/mux/agent.42");
}

#[test]
fn socket_path_agrees_with_std() {
    for dir in ["", "/", "/run/mux", "/run/mux/", "relative", "/run//"] {
        for pid in [0, 7, 10, 99, 4194304, i32::MAX, -1, -20, i32::MIN] {
            let expected = Path::new(dir).join(format!("agent.{pid}"));
            assert_eq!(socket_path(dir.as_bytes(), pid), expected.to_str().unwrap().as_bytes());
        }
    }
    assert_eq!(socket_path(b"/r\xff", 1), b"/r\xff/agent.1");
}

#[test]
fn socket_paths_differ_between_processes() {
    assert_ne!(socket_path(b"/run", 1), socket_path(b"/run", 11));
    assert_ne!(socket_path(b"/run", -1), socket_path(b"/run", 1));
}

#[test]
fn configured_auth_sock_comes_first() {
    let some = |text: &str| Some(text.to_string());
    assert_eq!(Proxy::default_ssh_auth_sock(some("a"), some("b")), some("a"));
    assert_eq!(Proxy::default_ssh_auth_sock(some(""), some("b")), some(""));
    assert_eq!(Proxy::default_ssh_auth_sock(None, some("b")), some("b"));
    assert_eq!(Proxy::default_ssh_auth_sock(None, None), None);
}

#[test]
fn connection_without_client_is_dropped() {
    let proxy = proxy_with(&[1]);
    assert!(matches!(proxy.handle_accepted(&vec![]), AcceptStep::NoClient));
}

#[test]
fn connection_without_sender_is_dropped() {
    let mut proxy = proxy_with(&[1]);
    match proxy.handle_accepted(&active(2)) {
        AcceptStep::NoSender { target } => assert!(target.is_same(&id(2))),
        _ => panic!("sender found"),
    }
    proxy.unregister_client(&id(1));
    assert!(matches!(proxy.handle_accepted(&active(1)), AcceptStep::NoSender { .. }));
}

#[test]
fn connection_is_bridged() {
    let mut proxy = proxy_with(&[1, 2]);
    match proxy.handle_accepted(&active(2)) {
        AcceptStep::Split(pending) => {
            assert!(pending.target.is_same(&id(2)));
            assert_eq!(*pending.sender, "s2");
        }
        _ => panic!("not accepted"),
    }
    let opened = open(&mut proxy, 2, "stream");
    assert_eq!(opened.channel_id, 1);
    assert_eq!(*opened.sender, "s2");
    assert_eq!(opened.message, AgentMessage::Open { channel_id: 1 });
    assert_eq!(opened.read_half, 7);
}

#[test]
fn connection_that_cannot_be_split_is_dropped() {
    let mut proxy = proxy_with(&[1]);
    match proxy.handle_accepted(&active(1)) {
        AcceptStep::Split(pending) => {
            assert!(proxy.complete_accepted::<u8>(pending, None).is_none());
        }
        _ => panic!("not accepted"),
    }
    assert!(proxy.handle_inbound_data(1, b"x").is_none());
    assert_eq!(open(&mut proxy, 1, "stream").channel_id, 1);
}

#[test]
fn ids_are_handed_out_in_turn() {
    let mut proxy = proxy_with(&[1]);
    assert_eq!(open(&mut proxy, 1, "a").channel_id, 1);
    assert_eq!(open(&mut proxy, 1, "b").channel_id, 2);
    proxy.close_channel(2, false);
    assert_eq!(open(&mut proxy, 1, "c").channel_id, 3);
}

#[test]
fn inbound_data_goes_to_its_stream() {
    let mut proxy = proxy_with(&[1]);
    open(&mut proxy, 1, "a");
    open(&mut proxy, 1, "b");
    assert_eq!(proxy.handle_inbound_data(1, b"xy"), Some((&"a", SocketOp::WriteAll(&b"xy"[..]))));
    assert_eq!(proxy.handle_inbound_data(2, b"z"), Some((&"b", SocketOp::WriteAll(&b"z"[..]))));
    assert_eq!(proxy.handle_inbound_data(3, b"z"), None);
}

#[test]
fn empty_inbound_data_is_the_end() {
    let mut proxy = proxy_with(&[1]);
    open(&mut proxy, 1, "a");
    assert_eq!(proxy.handle_inbound_data(1, b""), Some((&"a", SocketOp::ShutdownWrite)));
    assert_eq!(proxy.handle_inbound_data(2, b""), None);
}

#[test]
fn failed_write_closes_and_tells() {
    let mut proxy = proxy_with(&[1]);
    open(&mut proxy, 1, "a");
    assert!(proxy.complete_inbound_data(1, true).is_none());
    assert!(proxy.handle_inbound_data(1, b"x").is_some());
    let closed = proxy.complete_inbound_data(1, false).unwrap();
    assert_eq!(closed.stream, "a");
    let notice = closed.notice.unwrap();
    assert_eq!(*notice.sender, "s1");
    assert_eq!(notice.message, AgentMessage::Close { channel_id: 1 });
    assert!(proxy.handle_inbound_data(1, b"x").is_none());
    assert!(proxy.complete_inbound_data(1, false).is_none());
}

#[test]
fn remote_close_is_not_answered() {
    let mut proxy = proxy_with(&[1]);
    open(&mut proxy, 1, "a");
    let closed = proxy.handle_inbound_close(1).unwrap();
    assert_eq!(closed.stream, "a");
    assert!(closed.notice.is_none());
    // The pump finishes afterwards.
    assert!(proxy.pump_finished(1).is_none());
    assert!(proxy.handle_inbound_close(1).is_none());
}

#[test]
fn local_close_is_told_to_its_client() {
    let mut proxy = proxy_with(&[1, 2]);
    open(&mut proxy, 1, "a");
    open(&mut proxy, 2, "b");
    let notice = proxy.close_channel(1, true).unwrap().notice.unwrap();
    assert_eq!(*notice.sender, "s1");
    assert_eq!(notice.message, AgentMessage::Close { channel_id: 1 });
    assert!(proxy.handle_inbound_data(2, b"x").is_some());
}

#[test]
fn unregistering_drops_exactly_the_clients_channels() {
    let mut proxy = proxy_with(&[1, 2]);
    for (n, stream) in [(1, "a"), (2, "b"), (1, "c"), (2, "d"), (1, "e")] {
        open(&mut proxy, n, stream);
    }
    let mut streams = proxy.unregister_client(&id(1));
    streams.sort();
    assert_eq!(streams, vec![(1, "a"), (3, "c"), (5, "e")]);
    for channel_id in [1, 3, 5] {
        assert!(proxy.handle_inbound_data(channel_id, b"x").is_none());
    }
    assert_eq!(proxy.handle_inbound_data(2, b""), Some((&"b", SocketOp::ShutdownWrite)));
    assert_eq!(*proxy.close_channel(4, true).unwrap().notice.unwrap().sender, "s2");
    assert_eq!(proxy.unregister_client(&id(1)), vec![]);
    assert!(proxy.handle_inbound_data(2, b"x").is_some());
}

#[test]
fn close_is_told_once_over_a_run() {
    let mut proxy = proxy_with(&[1]);
    open(&mut proxy, 1, "a");
    open(&mut proxy, 1, "b");
    let mut told = 0;
    for _ in 0..3 {
        for closed in [
            proxy.complete_inbound_data(1, false),
            proxy.close_channel(1, true),
            proxy.handle_inbound_close(1),
        ] {
            told += closed.and_then(|closed| closed.notice).is_some() as u32;
        }
        proxy.unregister_client(&id(9));
        proxy.register_client(id(1), sender("s1"));
    }
    assert_eq!(told, 1);
    // Closed by the client first: nothing is told any more.
    assert!(proxy.handle_inbound_close(2).unwrap().notice.is_none());
    assert!(proxy.close_channel(2, true).is_none());
    assert!(proxy.complete_inbound_data(2, false).is_none());
}

#[test]
fn channel_of_a_client_that_went_meanwhile_is_closed_in_silence() {
    let mut proxy = proxy_with(&[1]);
    match proxy.handle_accepted(&active(1)) {
        AcceptStep::Split(pending) => {
            proxy.unregister_client(&id(1));
            let halves = Halves { read_half: 1, write_half: "a" };
            assert!(proxy.complete_accepted(pending, Some(halves)).is_some());
        }
        _ => panic!("not accepted"),
    }
    let closed = proxy.close_channel(1, true).unwrap();
    assert_eq!(closed.stream, "a");
    assert!(closed.notice.is_none());
}

#[test]
fn latest_sender_counts() {
    let mut proxy = proxy_with(&[1]);
    open(&mut proxy, 1, "a");
    proxy.register_client(id(1), sender("new"));
    assert_eq!(*proxy.close_channel(1, true).unwrap().notice.unwrap().sender, "new");
}

#[test]
fn activity_changes_nothing() {
    let mut proxy = proxy_with(&[1]);
    open(&mut proxy, 1, "a");
    proxy.update_target();
    assert_eq!(proxy.path(), b"/run/mux/agent.42");
    assert!(proxy.handle_inbound_data(1, b"x").is_some());
    assert_eq!(open(&mut proxy, 1, "b").channel_id, 2);
}

#[test]
fn accept_loop_decides() {
    assert_eq!(accept_loop(ListenerEvent::Bound), ListenerStep::Accept);
    assert_eq!(accept_loop(ListenerEvent::BindFailed), ListenerStep::GiveUp);
    assert_eq!(accept_loop(ListenerEvent::Accepted { agent_present: true }), ListenerStep::Serve);
    assert_eq!(accept_loop(ListenerEvent::Accepted { agent_present: false }), ListenerStep::Drop);
    assert_eq!(accept_loop(ListenerEvent::AcceptFailed), ListenerStep::Pause { millis: 100 });
}

#[test]
fn channel_stays_open_until_closed() {
    let mut proxy = proxy_with(&[1, 2]);
    open(&mut proxy, 1, "a");
    open(&mut proxy, 2, "b");
    proxy.register_client(id(3), sender("s3"));
    proxy.close_channel(2, true);
    proxy.close_channel(9, true);
    proxy.unregister_client(&id(2));
    proxy.unregister_client(&id(4));
    open(&mut proxy, 3, "c");
    assert_eq!(proxy.handle_inbound_data(1, b"x"), Some((&"a", SocketOp::WriteAll(&b"x"[..]))));
    assert_eq!(*proxy.close_channel(1, true).unwrap().notice.unwrap().sender, "s1");
    assert_eq!(proxy.path(), b"/run/mux/agent.42");
}

#[test]
fn closing_undoes_opening() {
    let mut proxy = proxy_with(&[1]);
    open(&mut proxy, 1, "a");
    let opened = open(&mut proxy, 1, "b");
    assert!(proxy.close_channel(opened.channel_id, false).is_some());
    assert!(proxy.handle_inbound_data(1, b"x").is_some());
    assert!(proxy.handle_inbound_data(2, b"x").is_none());
}

#[test]
fn unregistering_undoes_registering() {
    let mut proxy = proxy_with(&[1]);
    open(&mut proxy, 1, "a");
    proxy.register_client(id(2), sender("s2"));
    assert!(matches!(proxy.handle_accepted(&active(2)), AcceptStep::Split(_)));
    proxy.unregister_client(&id(2));
    assert!(matches!(proxy.handle_accepted(&active(2)), AcceptStep::NoSender { .. }));
    assert!(matches!(proxy.handle_accepted(&active(1)), AcceptStep::Split(_)));
    assert!(proxy.handle_inbound_data(1, b"x").is_some());
}

#[test]
fn most_recent_registered_client_gets_the_connection() {
    let mut proxy = proxy_with(&[1, 2]);
    let clients: Vec<ClientInfo> = [(1, 5), (2, 6)]
        .into_iter()
        .map(|(n, secs)| ClientInfo {
            client_id: Arc::new(id(n)),
            last_input: Timestamp { secs, nanos: 0 },
        })
        .collect();
    match proxy.handle_accepted(&clients) {
        AcceptStep::Split(pending) => {
            assert_eq!(*pending.sender, "s2");
            let halves = Halves { read_half: 1, write_half: "a" };
            assert_eq!(proxy.complete_accepted(pending, Some(halves)).unwrap().channel_id, 1);
        }
        _ => panic!("not accepted"),
    }
    assert_eq!(*proxy.close_channel(1, true).unwrap().notice.unwrap().sender, "s2");
}

#[test]
fn bytes_from_the_client_pass_unchanged() {
    let mut proxy = proxy_with(&[1]);
    let channel_id = open(&mut proxy, 1, "a").channel_id;
    let mut written: Vec<u8> = Vec::new();
    let mut ended = false;
    for read in [&b"hello "[..], &b"world"[..], &b""[..]] {
        let step: PumpStep<Pdu<()>> = pump_local_to_server(channel_id, read, Ok(read.len()));
        let unit = match step {
            PumpStep::Send { message: Pdu::AgentChannelData(unit), .. } => unit,
            _ => panic!("no data"),
        };
        match proxy.handle_inbound_data(unit.channel_id, &unit.data) {
            Some((stream, SocketOp::WriteAll(bytes))) => {
                assert_eq!(*stream, "a");
                assert!(!ended);
                written.extend_from_slice(bytes);
            }
            Some((stream, SocketOp::ShutdownWrite)) => {
                assert_eq!(*stream, "a");
                ended = true;
            }
            None => panic!("dropped"),
        }
    }
    assert_eq!(written, b"hello world");
    assert!(ended);
}

#[test]
fn finished_pump_closes_and_tells() {
    let mut proxy = proxy_with(&[1, 2]);
    open(&mut proxy, 1, "a");
    open(&mut proxy, 2, "b");
    let closed = proxy.pump_finished(1).unwrap();
    assert_eq!(closed.stream, "a");
    let notice = closed.notice.unwrap();
    assert_eq!(*notice.sender, "s1");
    assert_eq!(notice.message, AgentMessage::Close { channel_id: 1 });
    assert!(proxy.pump_finished(1).is_none());
    proxy.unregister_client(&id(2));
    assert!(proxy.pump_finished(2).is_none());
}
