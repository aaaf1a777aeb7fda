//! What the two ends of an agent channel tell each other, and what they do to their sockets.

use vstd::prelude::*;

verus! {

/// Message about an agent channel, independent of the transport that carries it.
#[derive(Debug, PartialEq, Eq)]
pub enum AgentMessage {
    /// Opens a channel.
    Open { channel_id: u64 },
    /// Carries bytes. Without bytes it says that no more will come.
    Data { channel_id: u64, data: Vec<u8> },
    /// Closes a channel.
    Close { channel_id: u64 },
}

/// What a message says.
pub enum MessageView {
    Open { channel_id: u64 },
    Data { channel_id: u64, data: Seq<u8> },
    Close { channel_id: u64 },
}

impl View for AgentMessage {
    type V = MessageView;

    open spec fn view(&self) -> MessageView {
        match self {
            AgentMessage::Open { channel_id } => MessageView::Open { channel_id: *channel_id },
            AgentMessage::Data { channel_id, data } => MessageView::Data {
                channel_id: *channel_id,
                data: data@,
            },
            AgentMessage::Close { channel_id } => MessageView::Close { channel_id: *channel_id },
        }
    }
}

/// Asks the client to open a channel to its agent.
#[derive(Debug, PartialEq, Eq)]
pub struct OpenAgentChannel {
    pub channel_id: u64,
}

/// Carries bytes of a channel.
#[derive(Debug, PartialEq, Eq)]
pub struct AgentChannelData {
    pub channel_id: u64,
    pub data: Vec<u8>,
}

/// Closes a channel.
#[derive(Debug, PartialEq, Eq)]
pub struct CloseAgentChannel {
    pub channel_id: u64,
}

/// Unit of the wire protocol. Everything that is not about agent channels is a `T`.
#[derive(Debug, PartialEq, Eq)]
pub enum Pdu<T> {
    OpenAgentChannel(OpenAgentChannel),
    AgentChannelData(AgentChannelData),
    CloseAgentChannel(CloseAgentChannel),
    Other(T),
}

/// What a unit of the wire protocol says.
pub enum PduView<T> {
    Agent(MessageView),
    Other(T),
}

impl<T> View for Pdu<T> {
    type V = PduView<T>;

    open spec fn view(&self) -> PduView<T> {
        match self {
            Pdu::OpenAgentChannel(open) => PduView::Agent(
                MessageView::Open { channel_id: open.channel_id },
            ),
            Pdu::AgentChannelData(data) => PduView::Agent(
                MessageView::Data { channel_id: data.channel_id, data: data.data@ },
            ),
            Pdu::CloseAgentChannel(close) => PduView::Agent(
                MessageView::Close { channel_id: close.channel_id },
            ),
            Pdu::Other(other) => PduView::Other(*other),
        }
    }
}

/// A connection that has been split, so that one thread can read it while others write to it.
pub struct Halves<R, W> {
    pub read_half: R,
    pub write_half: W,
}

/// What to do to the socket of a channel when data for it arrives.
#[derive(Debug, PartialEq, Eq)]
pub enum SocketOp<D> {
    /// Write all the bytes.
    WriteAll(D),
    /// Shut down the write side, so that the process at the socket sees the end.
    ShutdownWrite,
}

/// What is done to a socket.
pub enum SocketOpView {
    WriteAll(Seq<u8>),
    ShutdownWrite,
}

impl<D: View<V = Seq<u8>>> View for SocketOp<D> {
    type V = SocketOpView;

    open spec fn view(&self) -> SocketOpView {
        match self {
            SocketOp::WriteAll(data) => SocketOpView::WriteAll(data@),
            SocketOp::ShutdownWrite => SocketOpView::ShutdownWrite,
        }
    }
}

/// What arriving `data` does to the socket: bytes are written, no bytes mean the end.
pub open spec fn op_for(data: Seq<u8>) -> SocketOpView {
    if data.len() == 0 {
        SocketOpView::ShutdownWrite
    } else {
        SocketOpView::WriteAll(data)
    }
}

} // verus!
