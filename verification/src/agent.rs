//! The client side: channels that the server opens to the local SSH agent.
//!
//! The state says what is to be done with the agent's socket and what is to be sent to the server;
//! the caller does it.

use crate::client::share;
use crate::message::{op_for, CloseAgentChannel, Halves, MessageView, Pdu, PduView, SocketOp};
use std::collections::HashMap;
use std::sync::Arc;
use vstd::prelude::*;

verus! {

broadcast use vstd::std_specs::hash::group_hash_axioms;

/// Open channels, each with the connection to the local agent that it writes to.
pub struct ClientAgentState<W> {
    channels: HashMap<u64, Arc<W>>,
}

impl<W> View for ClientAgentState<W> {
    type V = Map<u64, Arc<W>>;

    closed spec fn view(&self) -> Map<u64, Arc<W>> {
        self.channels@
    }
}

/// What arriving data does: to which connection, and what.
pub struct DataStep<W> {
    pub stream: Arc<W>,
    pub op: SocketOp<Vec<u8>>,
}

/// What becomes of a unit of the wire protocol.
pub enum Dispatch<T, W> {
    /// The server opens a channel: go on with `ClientAgentState::open`.
    Open { channel_id: u64 },
    /// Data for a channel, and what to do with it, if the channel exists. How a write went is
    /// told to `ClientAgentState::complete_data`.
    Data { channel_id: u64, step: Option<DataStep<W>> },
    /// The server has closed a channel. The connection, if there was one, is shut down in both
    /// directions.
    Close { stream: Option<Arc<W>> },
    /// Not about agent channels: for the caller to handle.
    NotAgent(Pdu<T>),
}

/// How a channel is opened.
pub enum OpenStep<T> {
    /// Connect to the agent at the path, then go on with `ClientAgentState::complete_open`.
    Connect { path: String },
    /// There is no agent: send the answer to the server.
    Reject(Pdu<T>),
}

/// How the connection to the local agent went.
pub enum Connection<R, W> {
    /// There is no connection.
    Failed,
    /// There was one, but it could not be split into a read half and a write half, and the caller
    /// has dropped it.
    NotSplit,
    /// There is one, and it has been split.
    Split(Halves<R, W>),
}

/// What follows the connection to the local agent.
pub enum OpenOutcome<R, T> {
    /// Send the answer to the server.
    Reject(Pdu<T>),
    /// Run the pump on the read half. When it finishes, `ClientAgentState::pump_finished` is told.
    Pump { read_half: R },
}

/// What is left to do when data could not be written to the local agent.
pub struct WriteFailure<T, W> {
    /// To be shut down in both directions.
    pub stream: Option<Arc<W>>,
    /// To be sent to the server afterwards.
    pub reply: Pdu<T>,
}

/// Whether `pdu` closes channel `channel_id`.
pub open spec fn closes<T>(pdu: Pdu<T>, channel_id: u64) -> bool {
    pdu@ == PduView::<T>::Agent(MessageView::Close { channel_id })
}

/// The connection of a channel.
pub open spec fn stream_of<W>(channels: Map<u64, Arc<W>>, channel_id: u64) -> Option<Arc<W>> {
    if channels.contains_key(channel_id) {
        Some(channels[channel_id])
    } else {
        None
    }
}

/// Whether `step` is what data does that arrives for channel `channel_id`: its connection takes
/// the bytes, or the end of them. Without a connection there is nothing to do.
pub open spec fn is_data_step<W>(
    channels: Map<u64, Arc<W>>,
    channel_id: u64,
    data: Seq<u8>,
    step: Option<DataStep<W>>,
) -> bool {
    match step {
        Some(s) => stream_of(channels, channel_id) == Some(s.stream) && s.op@ == op_for(data),
        None => stream_of(channels, channel_id) is None,
    }
}

/// Path of the local agent's socket: what the environment says, unless it is empty.
pub fn resolve_local_agent_path(environment: Option<String>) -> (path: Option<String>)
    ensures
        path == (if environment matches Some(p) && p@.len() > 0 {
            environment
        } else {
            None
        }),
{
    match environment {
        Some(path) => {
            if path.as_str().is_empty() {
                None
            } else {
                Some(path)
            }
        },
        None => None,
    }
}

/// The unit of the wire protocol that closes a channel.
pub fn send_close<T>(channel_id: u64) -> (pdu: Pdu<T>)
    ensures
        closes(pdu, channel_id),
        pdu == Pdu::<T>::CloseAgentChannel(CloseAgentChannel { channel_id }),
{
    Pdu::CloseAgentChannel(CloseAgentChannel { channel_id })
}

impl<W> ClientAgentState<W> {
    /// No channel is open.
    pub fn new() -> (state: Self)
        ensures
            state@ == Map::<u64, Arc<W>>::empty(),
    {
        ClientAgentState { channels: HashMap::new() }
    }

    /// Decides what to do with what the server sent. What is not about agent channels is handed
    /// back unchanged.
    pub fn try_dispatch<T>(&mut self, pdu: Pdu<T>) -> (dispatch: Dispatch<T, W>)
        ensures
            match pdu@ {
                PduView::Agent(MessageView::Open { channel_id: id }) => {
                    &&& dispatch == Dispatch::<T, W>::Open { channel_id: id }
                    &&& final(self)@ == old(self)@
                },
                PduView::Agent(MessageView::Data { channel_id: id, data }) => {
                    &&& dispatch matches Dispatch::Data { channel_id, step } && channel_id == id
                        && is_data_step(old(self)@, id, data, step)
                    &&& final(self)@ == old(self)@
                },
                PduView::Agent(MessageView::Close { channel_id: id }) => {
                    &&& dispatch == Dispatch::<T, W>::Close { stream: stream_of(old(self)@, id) }
                    &&& final(self)@ == old(self)@.remove(id)
                },
                PduView::Other(_) => {
                    &&& dispatch == Dispatch::<T, W>::NotAgent(pdu)
                    &&& final(self)@ == old(self)@
                },
            },
            match pdu {
                Pdu::OpenAgentChannel(open) => dispatch == (Dispatch::<T, W>::Open {
                    channel_id: open.channel_id,
                }),
                Pdu::AgentChannelData(unit) => {
                    &&& dispatch matches Dispatch::Data { channel_id, step }
                    &&& channel_id == unit.channel_id
                    &&& step is Some <==> old(self)@.contains_key(channel_id)
                    &&& step matches Some(s) ==> s.stream == old(self)@[channel_id]
                        && if unit.data@.len() == 0 {
                        s.op is ShutdownWrite
                    } else {
                        s.op == SocketOp::WriteAll(unit.data)
                    }
                },
                Pdu::CloseAgentChannel(close) => {
                    &&& dispatch matches Dispatch::Close { stream }
                    &&& stream is Some <==> old(self)@.contains_key(close.channel_id)
                    &&& stream matches Some(s) ==> s == old(self)@[close.channel_id]
                },
                Pdu::Other(_) => dispatch == Dispatch::<T, W>::NotAgent(pdu),
            },
            pdu matches Pdu::CloseAgentChannel(close) ==> final(self)@ == old(self)@.remove(
                close.channel_id,
            ),
            !(pdu is CloseAgentChannel) ==> final(self)@ == old(self)@,
    {
        match pdu {
            Pdu::OpenAgentChannel(open) => Dispatch::Open { channel_id: open.channel_id },
            Pdu::AgentChannelData(data) => {
                let channel_id = data.channel_id;
                Dispatch::Data { channel_id, step: self.handle_data(channel_id, data.data) }
            },
            Pdu::CloseAgentChannel(close) => Dispatch::Close {
                stream: self.handle_close(close.channel_id),
            },
            other => Dispatch::NotAgent(other),
        }
    }

    /// Begins to open a channel. `environment` is the path of the local agent's socket as the
    /// environment gives it. Without one the server is told that the channel is closed.
    pub fn open<T>(&self, channel_id: u64, environment: Option<String>) -> (step: OpenStep<T>)
        ensures
            match step {
                OpenStep::Connect { path } => environment == Some(path) && path@.len() > 0,
                OpenStep::Reject(pdu) => closes(pdu, channel_id) && (environment matches Some(p)
                    ==> p@.len() == 0),
            },
            step matches OpenStep::Reject(pdu) ==> pdu == Pdu::<T>::CloseAgentChannel(
                CloseAgentChannel { channel_id },
            ),
    {
        match resolve_local_agent_path(environment) {
            Some(path) => OpenStep::Connect { path },
            None => OpenStep::Reject(send_close(channel_id)),
        }
    }

    /// Opens the channel if there is a connection and it has been split. Otherwise the server is
    /// told that the channel is closed.
    pub fn complete_open<R, T>(
        &mut self,
        channel_id: u64,
        connection: Connection<R, W>,
    ) -> (outcome: OpenOutcome<R, T>)
        ensures
            match connection {
                Connection::Split(halves) => {
                    &&& outcome == OpenOutcome::<R, T>::Pump { read_half: halves.read_half }
                    &&& final(self)@ == old(self)@.insert(channel_id, Arc::new(halves.write_half))
                },
                _ => {
                    &&& outcome matches OpenOutcome::Reject(pdu) && closes(pdu, channel_id)
                    &&& final(self)@ == old(self)@
                },
            },
            outcome matches OpenOutcome::Reject(pdu) ==> pdu == Pdu::<T>::CloseAgentChannel(
                CloseAgentChannel { channel_id },
            ),
    {
        match connection {
            Connection::Failed => OpenOutcome::Reject(send_close(channel_id)),
            Connection::NotSplit => OpenOutcome::Reject(send_close(channel_id)),
            Connection::Split(halves) => {
                self.channels.insert(channel_id, Arc::new(halves.write_half));
                OpenOutcome::Pump { read_half: halves.read_half }
            },
        }
    }

    /// The pump of a channel has finished: the connection is gone. Returns what to send to the
    /// server.
    pub fn pump_finished<T>(&mut self, channel_id: u64) -> (reply: Pdu<T>)
        ensures
            final(self)@ == old(self)@.remove(channel_id),
            closes(reply, channel_id),
            reply == Pdu::<T>::CloseAgentChannel(CloseAgentChannel { channel_id }),
    {
        self.channels.remove(&channel_id);
        send_close(channel_id)
    }

    /// Data for a channel has arrived from the server: what to do, and to which connection.
    pub fn handle_data(&self, channel_id: u64, data: Vec<u8>) -> (step: Option<DataStep<W>>)
        ensures
            is_data_step(self@, channel_id, data@, step),
            step is Some <==> self@.contains_key(channel_id),
            step matches Some(s) ==> s.stream == self@[channel_id] && if data@.len() == 0 {
                s.op is ShutdownWrite
            } else {
                s.op == SocketOp::WriteAll(data)
            },
    {
        match self.channels.get(&channel_id) {
            None => None,
            Some(stream) => {
                let op = if data.is_empty() {
                    // Half-close from the server side.
                    SocketOp::ShutdownWrite
                } else {
                    SocketOp::WriteAll(data)
                };
                Some(DataStep { stream: share(stream), op })
            },
        }
    }

    /// The bytes of data have been written, or could not be. A channel whose connection cannot be
    /// written to is removed, and the server is told.
    pub fn complete_data<T>(&mut self, channel_id: u64, written: bool) -> (failure: Option<
        WriteFailure<T, W>,
    >)
        ensures
            written ==> failure is None && final(self)@ == old(self)@,
            !written ==> {
                &&& final(self)@ == old(self)@.remove(channel_id)
                &&& failure matches Some(f) && f.stream == stream_of(old(self)@, channel_id)
                    && closes(f.reply, channel_id)
            },
            failure matches Some(f) ==> {
                &&& f.stream is Some <==> old(self)@.contains_key(channel_id)
                &&& f.stream matches Some(s) ==> s == old(self)@[channel_id]
                &&& f.reply == Pdu::<T>::CloseAgentChannel(CloseAgentChannel { channel_id })
            },
    {
        if written {
            None
        } else {
            let stream = self.handle_close(channel_id);
            Some(WriteFailure { stream, reply: send_close(channel_id) })
        }
    }

    /// The server has closed a channel. Returns its connection, to be shut down in both
    /// directions.
    pub fn handle_close(&mut self, channel_id: u64) -> (stream: Option<Arc<W>>)
        ensures
            stream == stream_of(old(self)@, channel_id),
            stream is Some <==> old(self)@.contains_key(channel_id),
            stream matches Some(s) ==> s == old(self)@[channel_id],
            final(self)@ == old(self)@.remove(channel_id),
    {
        self.channels.remove(&channel_id)
    }
}

} // verus!
