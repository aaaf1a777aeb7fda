//! What the client side keeps across calls.

use crate::agent::{closes, is_data_step, stream_of, DataStep};
use crate::message::{Pdu, SocketOp};
use std::sync::Arc;
use vstd::prelude::*;

verus! {

/// A channel has a connection exactly when it is open, and it is the one it is open with.
pub proof fn law_open_channel_has_its_connection<W>(channels: Map<u64, Arc<W>>, channel_id: u64)
    ensures
        stream_of(channels, channel_id) is Some <==> channels.contains_key(channel_id),
        stream_of(channels, channel_id) matches Some(stream) ==> stream == channels[channel_id],
{
}

/// What data does that arrives for a channel: nothing unless the channel is open. Otherwise the
/// channel's connection takes all its bytes, or its end where there are none.
pub proof fn law_data_goes_to_its_channel<W>(
    channels: Map<u64, Arc<W>>,
    channel_id: u64,
    data: Seq<u8>,
    step: Option<DataStep<W>>,
)
    requires
        is_data_step(channels, channel_id, data, step),
    ensures
        step is Some <==> channels.contains_key(channel_id),
        step matches Some(s) ==> {
            &&& s.stream == channels[channel_id]
            &&& s.op is ShutdownWrite <==> data.len() == 0
            &&& s.op matches SocketOp::WriteAll(bytes) ==> bytes@.len() == data.len() && forall|
                i: int,
            | 0 <= i < data.len() ==> bytes@[i] == data[i]
        },
{
}

/// A unit closes a channel only if it is a close and names that channel.
pub proof fn law_close_names_its_channel<T>(pdu: Pdu<T>, channel_id: u64)
    ensures
        closes(pdu, channel_id) <==> (pdu matches Pdu::CloseAgentChannel(close) && close.channel_id
            == channel_id),
{
}

/// Data for a channel that has just been opened goes to the connection it was opened with.
pub proof fn law_open_channel_takes_data<W>(
    channels: Map<u64, Arc<W>>,
    channel_id: u64,
    stream: Arc<W>,
    data: Seq<u8>,
    step: Option<DataStep<W>>,
)
    requires
        is_data_step(channels.insert(channel_id, stream), channel_id, data, step),
    ensures
        step matches Some(s) && s.stream == stream && if data.len() == 0 {
            s.op is ShutdownWrite
        } else {
            s.op matches SocketOp::WriteAll(bytes) && bytes@ == data
        },
{
}

/// Data for a channel that has been removed, by a close, a failed write or the end of its pump, is
/// dropped, and closing it again finds nothing.
pub proof fn law_removed_channel_is_gone<W>(
    channels: Map<u64, Arc<W>>,
    channel_id: u64,
    data: Seq<u8>,
    step: Option<DataStep<W>>,
)
    requires
        is_data_step(channels.remove(channel_id), channel_id, data, step),
    ensures
        step is None,
        stream_of(channels.remove(channel_id), channel_id) is None,
        channels.remove(channel_id).remove(channel_id) == channels.remove(channel_id),
{
    assert(channels.remove(channel_id).remove(channel_id) =~= channels.remove(channel_id));
}

/// Removing undoes opening.
pub proof fn law_remove_undoes_open<W>(
    channels: Map<u64, Arc<W>>,
    channel_id: u64,
    stream: Arc<W>,
)
    requires
        !channels.contains_key(channel_id),
    ensures
        channels.insert(channel_id, stream).remove(channel_id) == channels,
{
    assert(channels.insert(channel_id, stream).remove(channel_id) =~= channels);
}

/// A call that changes the channels.
pub enum AgentEvent<W> {
    Open { channel_id: u64, stream: Arc<W> },
    Remove { channel_id: u64 },
}

/// The channels after a sequence of calls, from none on.
pub open spec fn run<W>(events: Seq<AgentEvent<W>>) -> Map<u64, Arc<W>>
    decreases events.len(),
{
    if events.len() == 0 {
        Map::empty()
    } else {
        let channels = run(events.drop_last());
        match events.last() {
            AgentEvent::Open { channel_id, stream } => channels.insert(channel_id, stream),
            AgentEvent::Remove { channel_id } => channels.remove(channel_id),
        }
    }
}

/// Whether an event is about channel `channel_id`.
pub open spec fn is_about<W>(event: AgentEvent<W>, channel_id: u64) -> bool {
    match event {
        AgentEvent::Open { channel_id: id, stream: _ } => id == channel_id,
        AgentEvent::Remove { channel_id: id } => id == channel_id,
    }
}

/// In every state the last call about a channel decides: after it was opened, the channel has the
/// connection it was opened with; after it was removed, or without any call, it has none.
pub proof fn law_last_call_decides<W>(events: Seq<AgentEvent<W>>, channel_id: u64, last: int)
    requires
        -1 <= last < events.len(),
        last >= 0 ==> is_about(events[last], channel_id),
        forall|k: int|
            last < k < events.len() ==> !is_about(#[trigger] events[k], channel_id),
    ensures
        stream_of(run(events), channel_id) == (if last >= 0 && events[last] is Open {
            Some(events[last]->stream)
        } else {
            None
        }),
    decreases events.len(),
{
    if events.len() > 0 && last < events.len() - 1 {
        let before = events.drop_last();
        assert forall|k: int| last < k < before.len() implies !is_about(
            #[trigger] before[k],
            channel_id,
        ) by {
            assert(before[k] == events[k]);
        }
        law_last_call_decides(before, channel_id, last);
        assert(!is_about(events[events.len() - 1], channel_id));
    }
}

/// Opening or removing one channel leaves the others alone.
pub proof fn law_channels_are_independent<W>(
    channels: Map<u64, Arc<W>>,
    channel_id: u64,
    stream: Arc<W>,
    other: u64,
)
    requires
        other != channel_id,
    ensures
        stream_of(channels.insert(channel_id, stream), other) == stream_of(channels, other),
        stream_of(channels.remove(channel_id), other) == stream_of(channels, other),
{
}

} // verus!
