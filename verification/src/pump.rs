//! The pumps, which read the local socket of a channel and pass what they read to the other end.
//!
//! A pump reads, asks for the step that follows, performs it, and reads again or finishes.

use crate::message::{AgentChannelData, AgentMessage, MessageView, Pdu, PduView};
use vstd::prelude::*;
use vstd::slice::slice_to_vec;

verus! {

/// Size of the buffer that a pump reads into.
pub const PUMP_BUFFER_SIZE: usize = 16 * 1024;

/// What a pump does after a read.
#[derive(Debug, PartialEq, Eq)]
pub enum PumpStep<M> {
    /// Send the message. Whether to read again, `reads_again` tells.
    Send { message: M, last: bool },
    /// Finish.
    Stop,
}

impl<M: View> View for PumpStep<M> {
    type V = PumpStep<M::V>;

    open spec fn view(&self) -> PumpStep<M::V> {
        match self {
            PumpStep::Send { message, last } => PumpStep::Send { message: message@, last: *last },
            PumpStep::Stop => PumpStep::Stop,
        }
    }
}

/// Whether a pump reads again after it has sent a message: unless that was its last one, or the
/// transport did not take it. A transport that cannot refuse a message takes each.
pub fn reads_again(last: bool, sent: bool) -> (again: bool)
    ensures
        again == (sent && !last),
{
    sent && !last
}

/// What a read brought: bytes, no bytes at the end of the stream, or nothing when it failed.
pub open spec fn outcome(buf: Seq<u8>, read: Result<usize, ()>) -> Option<Seq<u8>> {
    match read {
        Ok(n) => Some(buf.take(n as int)),
        Err(_) => None,
    }
}

/// What a pump of channel `channel_id` does after a read: bytes are sent on, the end of the
/// stream is announced by data without bytes, a failure ends the pump in silence.
pub open spec fn pump_step(channel_id: u64, read: Option<Seq<u8>>) -> PumpStep<MessageView> {
    match read {
        Some(data) => {
            let message = MessageView::Data { channel_id, data };
            PumpStep::Send { message, last: data.len() == 0 }
        },
        None => PumpStep::Stop,
    }
}

/// The same step with the message as a unit of the wire protocol.
pub open spec fn on_wire<T>(step: PumpStep<MessageView>) -> PumpStep<PduView<T>> {
    match step {
        PumpStep::Send { message, last } => PumpStep::Send {
            message: PduView::Agent(message),
            last,
        },
        PumpStep::Stop => PumpStep::Stop,
    }
}

/// Copies the first `n` bytes of `buf`.
fn prefix(buf: &[u8], n: usize) -> (data: Vec<u8>)
    requires
        n <= buf@.len(),
    ensures
        data@ == buf@.take(n as int),
{
    let (head, _) = buf.split_at(n);
    slice_to_vec(head)
}

/// Server side: what follows a read from the process that connected to the agent socket.
pub fn pump_local_to_remote(channel_id: u64, buf: &[u8], read: Result<usize, ()>) -> (step:
    PumpStep<AgentMessage>)
    requires
        read matches Ok(n) ==> n <= buf@.len(),
    ensures
        step@ == pump_step(channel_id, outcome(buf@, read)),
        match read {
            Ok(n) => {
                &&& step matches PumpStep::Send {
                    message: AgentMessage::Data { channel_id: id, data },
                    last,
                } && id == channel_id && last == (n == 0) && data@.len() == n && forall|i: int|
                    0 <= i < n ==> data@[i] == buf@[i]
            },
            Err(_) => step is Stop,
        },
{
    assert(buf@.take(0) =~= Seq::<u8>::empty());
    match read {
        Ok(0) => {
            // The local side closed. The remote side can half-close its agent connection.
            PumpStep::Send {
                message: AgentMessage::Data { channel_id, data: Vec::new() },
                last: true,
            }
        },
        Ok(n) => PumpStep::Send {
            message: AgentMessage::Data { channel_id, data: prefix(buf, n) },
            last: false,
        },
        Err(_) => PumpStep::Stop,
    }
}

/// Client side: what follows a read from the local agent.
pub fn pump_local_to_server<T>(channel_id: u64, buf: &[u8], read: Result<usize, ()>) -> (step:
    PumpStep<Pdu<T>>)
    requires
        read matches Ok(n) ==> n <= buf@.len(),
    ensures
        step@ == on_wire::<T>(pump_step(channel_id, outcome(buf@, read))),
        match read {
            Ok(n) => {
                &&& step matches PumpStep::Send { message: Pdu::AgentChannelData(unit), last }
                    && unit.channel_id == channel_id && last == (n == 0) && unit.data@.len() == n
                    && forall|i: int| 0 <= i < n ==> unit.data@[i] == buf@[i]
            },
            Err(_) => step is Stop,
        },
{
    assert(buf@.take(0) =~= Seq::<u8>::empty());
    match read {
        Ok(0) => {
            // The local agent closed. The remote side can half-close its connection.
            PumpStep::Send {
                message: Pdu::AgentChannelData(AgentChannelData { channel_id, data: Vec::new() }),
                last: true,
            }
        },
        Ok(n) => PumpStep::Send {
            message: Pdu::AgentChannelData(AgentChannelData { channel_id, data: prefix(buf, n) }),
            last: false,
        },
        Err(_) => PumpStep::Stop,
    }
}

} // verus!
