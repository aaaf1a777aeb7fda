//! What the pumps and the handling of data guarantee together: bytes pass a channel unchanged.

use crate::agent::{is_data_step, DataStep};
use crate::message::{op_for, MessageView, PduView, SocketOpView};
use crate::proxy::ProxyView;
use crate::pump::{on_wire, outcome, pump_step, PumpStep};
use std::sync::Arc;
use vstd::prelude::*;

verus! {

/// One round of a pump: the buffer after the read, how many bytes the read put there or that it
/// failed, and whether the transport took the message that followed from it.
pub struct Round {
    pub buf: Seq<u8>,
    pub read: Result<usize, ()>,
    pub taken: bool,
}

/// Whether reads bring no more bytes than their buffers hold.
pub open spec fn fit(rounds: Seq<Round>) -> bool {
    forall|i: int|
        0 <= i < rounds.len() && (#[trigger] rounds[i]).read is Ok ==> rounds[i].read->Ok_0
            <= rounds[i].buf.len()
}

/// The bytes that a read has brought: those at the start of the buffer, as many as it counted.
pub open spec fn brought(round: Round) -> Seq<u8> {
    Seq::new(round.read->Ok_0 as nat, |i: int| round.buf[i])
}

/// What a pump does after a read, as its contract has it.
pub open spec fn step_after(channel_id: u64, round: Round) -> PumpStep<MessageView> {
    pump_step(channel_id, outcome(round.buf, round.read))
}

/// The messages that the transport has taken from the pump of a channel, given what its rounds
/// bring.
pub open spec fn pumped(channel_id: u64, rounds: Seq<Round>) -> Seq<MessageView>
    decreases rounds.len(),
{
    if rounds.len() == 0 || !rounds[0].taken {
        Seq::empty()
    } else {
        match step_after(channel_id, rounds[0]) {
            PumpStep::Send { message, last } => seq![message] + if last {
                Seq::empty()
            } else {
                pumped(channel_id, rounds.drop_first())
            },
            PumpStep::Stop => Seq::empty(),
        }
    }
}

/// Whether the round brings bytes that are passed on.
pub open spec fn passes_bytes(round: Round) -> bool {
    round.taken && round.read is Ok && round.read->Ok_0 > 0
}

/// Whether the round brings the end of the stream, and it is passed on.
pub open spec fn passes_end(round: Round) -> bool {
    round.taken && round.read == Ok::<usize, ()>(0)
}

/// The bytes that are read up to the end of the stream, a failure or a refusal.
pub open spec fn bytes_read(rounds: Seq<Round>) -> Seq<u8>
    decreases rounds.len(),
{
    if rounds.len() == 0 || !passes_bytes(rounds[0]) {
        Seq::empty()
    } else {
        brought(rounds[0]) + bytes_read(rounds.drop_first())
    }
}

/// After a read of `n` bytes a pump sends one message: data of its channel, `n` bytes long, with
/// the bytes of the buffer in their places. It goes on afterwards unless there were none.
pub proof fn law_read_is_sent_whole(channel_id: u64, buf: Seq<u8>, n: usize)
    requires
        n <= buf.len(),
    ensures
        pump_step(channel_id, outcome(buf, Ok(n))) matches PumpStep::Send {
            message: MessageView::Data { channel_id: id, data },
            last,
        } && id == channel_id && data.len() == n && last == (n == 0) && forall|i: int|
            0 <= i < n ==> data[i] == buf[i],
{
}

/// After a read that failed a pump sends nothing and finishes, whatever its buffer holds.
pub proof fn law_failed_read_is_silent(channel_id: u64, buf: Seq<u8>)
    ensures
        pump_step(channel_id, outcome(buf, Err(()))) is Stop,
{
}

/// What lies in the buffer past the bytes of the read plays no part.
pub proof fn law_rest_of_buffer_is_not_sent(
    channel_id: u64,
    buf: Seq<u8>,
    other: Seq<u8>,
    n: usize,
)
    requires
        n <= buf.len(),
        n <= other.len(),
        forall|i: int| 0 <= i < n ==> buf[i] == other[i],
    ensures
        pump_step(channel_id, outcome(buf, Ok(n))) == pump_step(channel_id, outcome(other, Ok(n))),
{
    assert(buf.take(n as int) =~= other.take(n as int));
}

/// The client's pump does what the server's does: it sends a unit that says the same message, goes
/// on in the same cases, and finishes in the same cases.
pub proof fn law_pumps_agree<T>(step: PumpStep<MessageView>)
    ensures
        on_wire::<T>(step) is Stop <==> step is Stop,
        step matches PumpStep::Send { message, last } ==> on_wire::<T>(step) == (
        PumpStep::<PduView<T>>::Send { message: PduView::Agent(message), last }),
{
}

/// What the other end does to its socket when the messages arrive in order.
pub open spec fn ops_for(messages: Seq<MessageView>) -> Seq<SocketOpView> {
    messages.map_values(|message: MessageView| op_for(message->data))
}

/// The bytes that are written to a socket.
pub open spec fn bytes_written(ops: Seq<SocketOpView>) -> Seq<u8>
    decreases ops.len(),
{
    if ops.len() == 0 {
        Seq::empty()
    } else {
        (match ops[0] {
            SocketOpView::WriteAll(data) => data,
            SocketOpView::ShutdownWrite => Seq::empty(),
        }) + bytes_written(ops.drop_first())
    }
}

/// The reads after the first fit their buffers too.
proof fn lemma_rest_fits(rounds: Seq<Round>)
    requires
        fit(rounds),
        rounds.len() > 0,
    ensures
        fit(rounds.drop_first()),
{
    let rest = rounds.drop_first();
    assert forall|i: int| 0 <= i < rest.len() && (#[trigger] rest[i]).read is Ok implies
        rest[i].read->Ok_0 <= rest[i].buf.len() by {
        assert(rest[i] == rounds[i + 1]);
    }
}

/// A pump passes on what it reads, read by read and in order, until the stream ends, a read fails
/// or the transport refuses a message. Data without bytes is sent for the end of the stream and
/// for nothing else, and is the last that is sent.
pub proof fn law_pump_in_order(channel_id: u64, rounds: Seq<Round>)
    requires
        fit(rounds),
    ensures
        pumped(channel_id, rounds).len() <= rounds.len(),
        forall|i: int|
            0 <= i < pumped(channel_id, rounds).len() ==> {
                &&& (#[trigger] rounds[i]).taken
                &&& rounds[i].read is Ok
                &&& pumped(channel_id, rounds)[i] == (MessageView::Data {
                    channel_id,
                    data: brought(rounds[i]),
                })
                &&& passes_end(rounds[i]) ==> i == pumped(channel_id, rounds).len() - 1
            },
        ({
            let n = pumped(channel_id, rounds).len() as int;
            n == rounds.len() || (n > 0 && passes_end(rounds[n - 1])) || rounds[n].read is Err
                || !rounds[n].taken
        }),
    decreases rounds.len(),
{
    if rounds.len() > 0 && rounds[0].read is Ok {
        law_read_is_sent_whole(channel_id, rounds[0].buf, rounds[0].read->Ok_0);
        assert(step_after(channel_id, rounds[0])->message->data =~= brought(rounds[0]));
    }
    if rounds.len() > 0 && passes_bytes(rounds[0]) {
        let rest = rounds.drop_first();
        lemma_rest_fits(rounds);
        law_pump_in_order(channel_id, rest);
        let n = pumped(channel_id, rest).len() as int;
        assert forall|i: int| 0 <= i < n + 1 implies {
            &&& (#[trigger] rounds[i]).taken
            &&& rounds[i].read is Ok
            &&& pumped(channel_id, rounds)[i] == (MessageView::Data {
                channel_id,
                data: brought(rounds[i]),
            })
            &&& passes_end(rounds[i]) ==> i == n
        } by {
            if i > 0 {
                assert(rest[i - 1] == rounds[i]);
            }
        }
        if n < rest.len() {
            assert(rest[n] == rounds[n + 1]);
        }
        if n > 0 {
            assert(rest[n - 1] == rounds[n]);
        }
    }
}

/// Bytes pass a channel unchanged: what the pump at one end reads is what the other end writes to
/// its socket, in the same order, whichever end pumps.
pub proof fn law_bytes_pass_unchanged(channel_id: u64, rounds: Seq<Round>)
    requires
        fit(rounds),
    ensures
        bytes_written(ops_for(pumped(channel_id, rounds))) == bytes_read(rounds),
    decreases rounds.len(),
{
    let messages = pumped(channel_id, rounds);
    let ops = ops_for(messages);
    if rounds.len() > 0 && rounds[0].read is Ok {
        law_read_is_sent_whole(channel_id, rounds[0].buf, rounds[0].read->Ok_0);
        assert(step_after(channel_id, rounds[0])->message->data =~= brought(rounds[0]));
    }
    if rounds.len() > 0 && passes_bytes(rounds[0]) {
        let rest = rounds.drop_first();
        lemma_rest_fits(rounds);
        law_bytes_pass_unchanged(channel_id, rest);
        assert(ops.drop_first() =~= ops_for(pumped(channel_id, rest)));
        assert(ops[0] == SocketOpView::WriteAll(brought(rounds[0])));
    } else if rounds.len() > 0 && passes_end(rounds[0]) {
        assert(bytes_written(ops.drop_first()) =~= Seq::<u8>::empty());
        assert(ops[0] == SocketOpView::ShutdownWrite);
    }
}

/// The end of the stream passes a channel too: the other end shuts down the write side of its
/// socket exactly when the end has been read and passed on, and it does so after the last byte.
pub proof fn law_end_passes(channel_id: u64, rounds: Seq<Round>, i: int)
    requires
        fit(rounds),
        0 <= i < pumped(channel_id, rounds).len(),
    ensures
        ops_for(pumped(channel_id, rounds))[i] is ShutdownWrite <==> passes_end(rounds[i]),
        passes_end(rounds[i]) ==> i == pumped(channel_id, rounds).len() - 1,
{
    law_pump_in_order(channel_id, rounds);
    assert(rounds[i].taken);
}

/// From the server to the client: while its channel is open, the client writes to the connection
/// of that channel what the server's pump reads, in order.
pub proof fn law_client_writes_what_server_reads<W>(
    channels: Map<u64, Arc<W>>,
    channel_id: u64,
    rounds: Seq<Round>,
    steps: Seq<Option<DataStep<W>>>,
)
    requires
        fit(rounds),
        channels.contains_key(channel_id),
        steps.len() == pumped(channel_id, rounds).len(),
        forall|i: int|
            0 <= i < steps.len() ==> is_data_step(
                channels,
                channel_id,
                pumped(channel_id, rounds)[i]->data,
                #[trigger] steps[i],
            ),
    ensures
        forall|i: int|
            0 <= i < steps.len() ==> (#[trigger] steps[i]) is Some && steps[i]->0.stream
                == channels[channel_id],
        bytes_written(steps.map_values(|step: Option<DataStep<W>>| step->0.op@)) == bytes_read(
            rounds,
        ),
{
    let ops = steps.map_values(|step: Option<DataStep<W>>| step->0.op@);
    assert forall|i: int| 0 <= i < steps.len() implies ops[i] == ops_for(
        pumped(channel_id, rounds),
    )[i] by {
        assert(steps[i] is Some);
    }
    assert(ops =~= ops_for(pumped(channel_id, rounds)));
    law_bytes_pass_unchanged(channel_id, rounds);
}

/// From the client to the server: while its channel is open, the server writes to the connection
/// of that channel what the client's pump reads, in order.
pub proof fn law_server_writes_what_client_reads<W, S>(
    proxy: ProxyView<W, S>,
    channel_id: u64,
    rounds: Seq<Round>,
    steps: Seq<Option<(W, SocketOpView)>>,
)
    requires
        fit(rounds),
        proxy.channels.contains_key(channel_id),
        steps.len() == pumped(channel_id, rounds).len(),
        forall|i: int|
            0 <= i < steps.len() ==> #[trigger] steps[i] == proxy.inbound(
                channel_id,
                pumped(channel_id, rounds)[i]->data,
            ),
    ensures
        forall|i: int|
            0 <= i < steps.len() ==> (#[trigger] steps[i]) is Some && (steps[i]->0).0
                == proxy.channels[channel_id].write_half,
        bytes_written(steps.map_values(|step: Option<(W, SocketOpView)>| (step->0).1))
            == bytes_read(rounds),
{
    let ops = steps.map_values(|step: Option<(W, SocketOpView)>| (step->0).1);
    assert forall|i: int| 0 <= i < steps.len() implies ops[i] == ops_for(
        pumped(channel_id, rounds),
    )[i] by {
        assert(steps[i] is Some);
    }
    assert(ops =~= ops_for(pumped(channel_id, rounds)));
    law_bytes_pass_unchanged(channel_id, rounds);
}

} // verus!
