//! What messages say, and what arriving data does.

use crate::message::{op_for, AgentMessage, MessageView, Pdu, PduView, SocketOp, SocketOpView};
use vstd::prelude::*;

verus! {

/// Messages say the same only if they are of one kind, about one channel, and carry the same bytes.
pub proof fn law_message_tells_all(a: AgentMessage, b: AgentMessage)
    ensures
        a@ == b@ <==> match (a, b) {
            (AgentMessage::Open { channel_id: i }, AgentMessage::Open { channel_id: j }) => i == j,
            (
                AgentMessage::Data { channel_id: i, data: x },
                AgentMessage::Data { channel_id: j, data: y },
            ) => i == j && x@ == y@,
            (AgentMessage::Close { channel_id: i }, AgentMessage::Close { channel_id: j }) => i
                == j,
            _ => false,
        },
{
}

/// A unit of the wire protocol says what a message says only if it is of the same kind, about the
/// same channel, and carries the same bytes.
pub proof fn law_unit_says_what_message_says<T>(pdu: Pdu<T>, message: AgentMessage)
    ensures
        pdu@ == PduView::<T>::Agent(message@) <==> match (pdu, message) {
            (Pdu::OpenAgentChannel(open), AgentMessage::Open { channel_id }) => open.channel_id
                == channel_id,
            (Pdu::AgentChannelData(unit), AgentMessage::Data { channel_id, data }) => {
                unit.channel_id == channel_id && unit.data@ == data@
            },
            (Pdu::CloseAgentChannel(close), AgentMessage::Close { channel_id }) => close.channel_id
                == channel_id,
            _ => false,
        },
{
}

/// What is not about agent channels says itself and no message.
pub proof fn law_other_units_say_themselves<T>(pdu: Pdu<T>, other: T, message: MessageView)
    ensures
        pdu@ == PduView::<T>::Other(other) <==> pdu == Pdu::Other(other),
        pdu == Pdu::Other(other) ==> pdu@ != PduView::<T>::Agent(message),
{
}

/// Arriving bytes are written, all of them and no others. Data without bytes shuts the write side
/// down, and nothing else does.
pub proof fn law_bytes_are_written_or_end(data: Seq<u8>)
    ensures
        op_for(data) is ShutdownWrite <==> data.len() == 0,
        op_for(data) matches SocketOpView::WriteAll(bytes) ==> bytes.len() == data.len()
            && forall|i: int| 0 <= i < data.len() ==> bytes[i] == data[i],
{
}

/// What is done to a socket is what the operation holds.
pub proof fn law_operation_tells_all(op: SocketOp<Vec<u8>>, bytes: Seq<u8>)
    ensures
        op@ is ShutdownWrite <==> op is ShutdownWrite,
        op@ == SocketOpView::WriteAll(bytes) <==> (op matches SocketOp::WriteAll(data) && data@
            == bytes),
{
}

} // verus!
