use agent_forward::agent::{
    resolve_local_agent_path, send_close, ClientAgentState, Connection, Dispatch, OpenOutcome,
    OpenStep,
};
use agent_forward::message::{
    AgentChannelData, AgentMessage, CloseAgentChannel, Halves, OpenAgentChannel, Pdu, SocketOp,
};
use agent_forward::pump::{
    pump_local_to_remote, pump_local_to_server, reads_again, PumpStep, PUMP_BUFFER_SIZE,
};

type State = ClientAgentState<&'static str>;
type Unit = Pdu<&'static str>;

fn close(channel_id: u64) -> Unit {
    Pdu::CloseAgentChannel(CloseAgentChannel { channel_id })
}

fn data(channel_id: u64, bytes: &[u8]) -> Unit {
    Pdu::AgentChannelData(AgentChannelData { channel_id, data: bytes.to_vec() })
}

fn state_with(channels: &[(u64, &'static str)]) -> State {
    let mut state = State::new();
    for (channel_id, stream) in channels {
        let connection = Connection::Split(Halves { read_half: 5u8, write_half: *stream });
        match state.complete_open::<u8, &'static str>(*channel_id, connection) {
            OpenOutcome::Pump { read_half } => assert_eq!(read_half, 5),
            OpenOutcome::Reject(_) => panic!("rejected"),
        }
    }
    state
}

#[test]
fn agent_path_is_resolved() {
    assert_eq!(resolve_local_agent_path(Some("/tmp/a".to_string())), Some("/tmp/a".to_string()));
    assert_eq!(resolve_local_agent_path(Some(String::new())), None);
    assert_eq!(resolve_local_agent_path(None), None);
}

#[test]
fn open_without_agent_is_answered_by_close() {
    let state = State::new();
    for environment in [None, Some(String::new())] {
        match state.open::<&'static str>(9, environment) {
            OpenStep::Reject(pdu) => assert_eq!(pdu, close(9)),
            OpenStep::Connect { .. } => panic!("connects"),
        }
    }
}

#[test]
fn open_connects_to_agent() {
    match State::new().open::<&'static str>(9, Some("/tmp/a".to_string())) {
        OpenStep::Connect { path } => assert_eq!(path, "/tmp/a"),
        OpenStep::Reject(_) => panic!("rejected"),
    }
}

#[test]
fn failed_connection_is_answered_by_close() {
    let mut state = State::new();
    let failed: [Connection<u8, &'static str>; 2] = [Connection::Failed, Connection::NotSplit];
    for connection in failed {
        match state.complete_open::<u8, &'static str>(9, connection) {
            OpenOutcome::Reject(pdu) => assert_eq!(pdu, close(9)),
            OpenOutcome::Pump { .. } => panic!("opened"),
        }
        assert!(state.handle_data(9, vec![1]).is_none());
    }
}

#[test]
fn open_is_dispatched() {
    let mut state = State::new();
    let unit: Unit = Pdu::OpenAgentChannel(OpenAgentChannel { channel_id: 3 });
    assert!(matches!(state.try_dispatch(unit), Dispatch::Open { channel_id: 3 }));
}

#[test]
fn data_is_dispatched() {
    let mut state = state_with(&[(3, "a"), (4, "b")]);
    match state.try_dispatch(data(4, b"xy")) {
        Dispatch::Data { channel_id, step } => {
            let step = step.unwrap();
            assert_eq!(channel_id, 4);
            assert_eq!(*step.stream, "b");
            assert_eq!(step.op, SocketOp::WriteAll(b"xy".to_vec()));
        }
        _ => panic!("not data"),
    }
    match state.try_dispatch(data(3, b"")) {
        Dispatch::Data { channel_id, step } => {
            let step = step.unwrap();
            assert_eq!(channel_id, 3);
            assert_eq!(*step.stream, "a");
            assert_eq!(step.op, SocketOp::ShutdownWrite);
        }
        _ => panic!("not data"),
    }
    match state.try_dispatch(data(5, b"xy")) {
        Dispatch::Data { channel_id, step } => {
            assert_eq!(channel_id, 5);
            assert!(step.is_none());
        }
        _ => panic!("not data"),
    }
}

#[test]
fn close_is_dispatched() {
    let mut state = state_with(&[(3, "a"), (4, "b")]);
    match state.try_dispatch(close(3)) {
        Dispatch::Close { stream } => assert_eq!(*stream.unwrap(), "a"),
        _ => panic!("not a close"),
    }
    match state.try_dispatch(close(3)) {
        Dispatch::Close { stream } => assert!(stream.is_none()),
        _ => panic!("not a close"),
    }
    assert!(state.handle_data(3, vec![1]).is_none());
    assert!(state.handle_data(4, vec![1]).is_some());
}

#[test]
fn other_units_are_handed_back() {
    let mut state = state_with(&[(3, "a")]);
    match state.try_dispatch(Pdu::Other("ping")) {
        Dispatch::NotAgent(pdu) => assert_eq!(pdu, Pdu::Other("ping")),
        _ => panic!("taken"),
    }
}

#[test]
fn failed_write_removes_and_tells() {
    let mut state = state_with(&[(3, "a")]);
    assert!(state.complete_data::<&'static str>(3, true).is_none());
    assert!(state.handle_data(3, vec![1]).is_some());
    let failure = state.complete_data::<&'static str>(3, false).unwrap();
    assert_eq!(*failure.stream.unwrap(), "a");
    assert_eq!(failure.reply, close(3));
    assert!(state.handle_data(3, vec![1]).is_none());
    let failure = state.complete_data::<&'static str>(3, false).unwrap();
    assert!(failure.stream.is_none());
    assert_eq!(failure.reply, close(3));
}

#[test]
fn finished_pump_removes_and_tells() {
    let mut state = state_with(&[(3, "a"), (4, "b")]);
    assert_eq!(state.pump_finished::<&'static str>(3), close(3));
    assert!(state.handle_close(3).is_none());
    assert_eq!(*state.handle_close(4).unwrap(), "b");
    assert_eq!(state.pump_finished::<&'static str>(4), close(4));
}

#[test]
fn reopened_channel_uses_its_new_stream() {
    let mut state = state_with(&[(3, "a"), (3, "b")]);
    assert_eq!(*state.handle_close(3).unwrap(), "b");
    assert!(state.handle_close(3).is_none());
}

#[test]
fn close_unit_names_its_channel() {
    let unit: Unit = send_close(u64::MAX);
    assert_eq!(unit, close(u64::MAX));
}

#[test]
fn server_pump_decides() {
    let buf = [1, 2, 3, 4];
    assert_eq!(
        pump_local_to_remote(6, &buf, Ok(3)),
        PumpStep::Send { message: AgentMessage::Data { channel_id: 6, data: vec![1, 2, 3] }, last: false }
    );
    assert_eq!(
        pump_local_to_remote(6, &buf, Ok(4)),
        PumpStep::Send { message: AgentMessage::Data { channel_id: 6, data: vec![1, 2, 3, 4] }, last: false }
    );
    assert_eq!(
        pump_local_to_remote(6, &buf, Ok(0)),
        PumpStep::Send { message: AgentMessage::Data { channel_id: 6, data: vec![] }, last: true }
    );
    assert_eq!(pump_local_to_remote(6, &buf, Err(())), PumpStep::Stop);
}

#[test]
fn client_pump_decides() {
    let buf = [1, 2, 3, 4];
    let step = |read| -> PumpStep<Unit> { pump_local_to_server(6, &buf, read) };
    assert_eq!(step(Ok(3)), PumpStep::Send { message: data(6, &[1, 2, 3]), last: false });
    assert_eq!(step(Ok(0)), PumpStep::Send { message: data(6, &[]), last: true });
    assert_eq!(step(Err(())), PumpStep::Stop);
}

#[test]
fn pump_reads_again_after_a_sent_message_only() {
    assert!(reads_again(false, true));
    assert!(!reads_again(false, false));
    assert!(!reads_again(true, true));
    assert!(!reads_again(true, false));
}

#[test]
fn pump_buffer_has_its_size() {
    assert_eq!(PUMP_BUFFER_SIZE, 16384);
}

#[test]
fn bytes_pass_unchanged() {
    let state = state_with(&[(6, "a")]);
    let reads: Vec<Vec<u8>> = vec![b"hello ".to_vec(), b"wor".to_vec(), b"ld".to_vec(), vec![]];
    let mut written: Vec<u8> = Vec::new();
    let mut ended = false;
    for read in reads {
        let message = match pump_local_to_remote(6, &read, Ok(read.len())) {
            PumpStep::Send { message, last } => {
                assert_eq!(last, read.is_empty());
                message
            }
            PumpStep::Stop => panic!("stopped"),
        };
        let (channel_id, bytes) = match message {
            AgentMessage::Data { channel_id, data } => (channel_id, data),
            _ => panic!("not data"),
        };
        match state.handle_data(channel_id, bytes).unwrap().op {
            SocketOp::WriteAll(bytes) => {
                assert!(!ended);
                written.extend(bytes);
            }
            SocketOp::ShutdownWrite => ended = true,
        }
    }
    assert_eq!(written, b"hello world");
    assert!(ended);
}
