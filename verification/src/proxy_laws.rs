//! What the proxy keeps in every state and across calls.

use crate::client::{ClientIdView, ClientInfo};
use crate::message::{AgentMessage, MessageView, SocketOpView};
use crate::pick::winner;
use crate::pick_laws::{forwards_at, law_someone_is_chosen};
use crate::proxy::{
    are_streams_of, is_accept_step, was_closed, AcceptStep, ChannelView, Closed, ProxyView,
};
use std::sync::Arc;
use vstd::prelude::*;

verus! {

/// A call that changes the proxy.
pub enum ProxyEvent<W, S> {
    Register { client: ClientIdView, sender: Arc<S> },
    Unregister { client: ClientIdView },
    Accept { client: ClientIdView, write_half: W },
    Close { channel_id: u64, notify_remote: bool },
}

/// The proxy after one call.
pub open spec fn step<W, S>(proxy: ProxyView<W, S>, event: ProxyEvent<W, S>) -> ProxyView<W, S> {
    match event {
        ProxyEvent::Register { client, sender } => proxy.register(client, sender),
        ProxyEvent::Unregister { client } => proxy.unregister(client),
        ProxyEvent::Accept { client, write_half } => proxy.accept(client, write_half),
        ProxyEvent::Close { channel_id, notify_remote: _ } => proxy.close(channel_id),
    }
}

/// Whether a call closes channel `channel_id`.
pub open spec fn closes<W, S>(event: ProxyEvent<W, S>, channel_id: u64) -> bool {
    event is Close && event->channel_id == channel_id
}

/// Whether a call hands out a message that closes channel `channel_id`.
pub open spec fn tells<W, S>(
    proxy: ProxyView<W, S>,
    event: ProxyEvent<W, S>,
    channel_id: u64,
) -> bool {
    closes(event, channel_id) && event->notify_remote && proxy.sender_of(channel_id) is Some
}

/// Whether a call opens a channel with the identifier `channel_id`.
pub open spec fn opens<W, S>(
    proxy: ProxyView<W, S>,
    event: ProxyEvent<W, S>,
    channel_id: u64,
) -> bool {
    event is Accept && proxy.next_channel_id == channel_id
}

/// A proxy after a sequence of calls.
pub open spec fn run_from<W, S>(
    proxy: ProxyView<W, S>,
    events: Seq<ProxyEvent<W, S>>,
) -> ProxyView<W, S>
    decreases events.len(),
{
    if events.len() == 0 {
        proxy
    } else {
        step(run_from(proxy, events.drop_last()), events.last())
    }
}

/// A new proxy after a sequence of calls.
pub open spec fn run<W, S>(sock_path: Seq<u8>, events: Seq<ProxyEvent<W, S>>) -> ProxyView<W, S> {
    run_from(ProxyView::initial(sock_path), events)
}

/// Number of channels that a sequence of calls opens.
pub open spec fn accepts<W, S>(events: Seq<ProxyEvent<W, S>>) -> nat
    decreases events.len(),
{
    if events.len() == 0 {
        0
    } else {
        accepts(events.drop_last()) + if events.last() is Accept { 1nat } else { 0nat }
    }
}

/// Number of messages that close channel `channel_id` which a sequence of calls hands out.
pub open spec fn told<W, S>(
    proxy: ProxyView<W, S>,
    events: Seq<ProxyEvent<W, S>>,
    channel_id: u64,
) -> nat
    decreases events.len(),
{
    if events.len() == 0 {
        0
    } else {
        let before = events.drop_last();
        told(proxy, before, channel_id) + if tells(
            run_from(proxy, before),
            events.last(),
            channel_id,
        ) {
            1nat
        } else {
            0nat
        }
    }
}

/// Number of channels with the identifier `channel_id` that a sequence of calls opens.
pub open spec fn opened<W, S>(
    proxy: ProxyView<W, S>,
    events: Seq<ProxyEvent<W, S>>,
    channel_id: u64,
) -> nat
    decreases events.len(),
{
    if events.len() == 0 {
        0
    } else {
        let before = events.drop_last();
        opened(proxy, before, channel_id) + if opens(
            run_from(proxy, before),
            events.last(),
            channel_id,
        ) {
            1nat
        } else {
            0nat
        }
    }
}

/// Every channel leads to a client that has a sender.
pub open spec fn leads_to_registered<W, S>(proxy: ProxyView<W, S>) -> bool {
    forall|id: u64| #[trigger]
        proxy.channels.contains_key(id) ==> proxy.senders.contains_key(proxy.channels[id].client_id)
}

/// Whether a client has the given sender, or none, in a state of the proxy.
pub open spec fn has_sender<W, S>(
    proxy: ProxyView<W, S>,
    client: ClientIdView,
    sender: Option<Arc<S>>,
) -> bool {
    match sender {
        Some(s) => proxy.senders.contains_key(client) && proxy.senders[client] == s,
        None => !proxy.senders.contains_key(client),
    }
}

/// Whether a client has the same sender in two states of the proxy, or none in both.
pub open spec fn same_sender<W, S>(
    a: ProxyView<W, S>,
    b: ProxyView<W, S>,
    client: ClientIdView,
) -> bool {
    &&& a.senders.contains_key(client) == b.senders.contains_key(client)
    &&& a.senders.contains_key(client) ==> a.senders[client] == b.senders[client]
}

/// Whether a channel has the same connection and client in two states of the proxy, or is open in
/// neither.
pub open spec fn same_channel<W, S>(a: ProxyView<W, S>, b: ProxyView<W, S>, id: u64) -> bool {
    &&& a.channels.contains_key(id) == b.channels.contains_key(id)
    &&& a.channels.contains_key(id) ==> a.channels[id].write_half == b.channels[id].write_half
        && a.channels[id].client_id == b.channels[id].client_id
}

/// A new proxy has its path, no senders and no channels, and its first channel gets the identifier
/// one.
pub proof fn law_starts_empty<W, S>(sock_path: Seq<u8>, client: ClientIdView, id: u64)
    ensures
        ({
            let proxy = ProxyView::<W, S>::initial(sock_path);
            &&& proxy.sock_path == sock_path
            &&& !proxy.senders.contains_key(client)
            &&& !proxy.channels.contains_key(id)
            &&& proxy.next_channel_id == 1
        }),
{
}

/// Registering a client, whichever it is and whatever is open, gives it the sender and does nothing
/// else: every other client has the sender it had, or none; channels, path and next identifier
/// stay.
pub proof fn law_register_sets_one_sender<W, S>(
    proxy: ProxyView<W, S>,
    client: ClientIdView,
    sender: Arc<S>,
)
    ensures
        ({
            let now = proxy.register(client, sender);
            &&& now.senders.contains_key(client)
            &&& now.senders[client] == sender
            &&& forall|c: ClientIdView| c != client ==> #[trigger] same_sender(now, proxy, c)
            &&& now.channels == proxy.channels
            &&& now.sock_path == proxy.sock_path
            &&& now.next_channel_id == proxy.next_channel_id
        }),
{
}

/// Unregistering a client takes away its sender and its channels and nothing else: every other
/// client keeps the sender it had, whether or not it has a channel, and keeps its channels; path
/// and next identifier stay.
pub proof fn law_unregister_takes_one_sender<W, S>(proxy: ProxyView<W, S>, client: ClientIdView)
    ensures
        ({
            let now = proxy.unregister(client);
            &&& !now.senders.contains_key(client)
            &&& forall|c: ClientIdView| c != client ==> #[trigger] same_sender(now, proxy, c)
            &&& forall|id: u64|
                proxy.channels.contains_key(id) && proxy.channels[id].client_id == client
                    ==> !#[trigger] now.channels.contains_key(id)
            &&& forall|id: u64|
                !(proxy.channels.contains_key(id) && proxy.channels[id].client_id == client)
                    ==> #[trigger] same_channel(now, proxy, id)
            &&& now.sock_path == proxy.sock_path
            &&& now.next_channel_id == proxy.next_channel_id
        }),
{
}

/// Closing a channel, open or not, removes it and does nothing else: no sender changes, every other
/// channel stays as it is, and so do path and next identifier.
pub proof fn law_close_takes_one_channel<W, S>(proxy: ProxyView<W, S>, channel_id: u64)
    ensures
        ({
            let now = proxy.close(channel_id);
            &&& !now.channels.contains_key(channel_id)
            &&& forall|id: u64| id != channel_id ==> #[trigger] same_channel(now, proxy, id)
            &&& now.senders == proxy.senders
            &&& now.sock_path == proxy.sock_path
            &&& now.next_channel_id == proxy.next_channel_id
        }),
{
}

/// Opening a channel adds it under the next identifier, with its connection and its client, and
/// does nothing else: no sender changes, every other channel stays as it is, and so does the path.
/// The identifier after the greatest is zero.
pub proof fn law_accept_adds_one_channel<W, S>(
    proxy: ProxyView<W, S>,
    client: ClientIdView,
    write_half: W,
)
    ensures
        ({
            let now = proxy.accept(client, write_half);
            let new = proxy.next_channel_id;
            &&& now.channels.contains_key(new)
            &&& now.channels[new].write_half == write_half
            &&& now.channels[new].client_id == client
            &&& forall|id: u64| id != new ==> #[trigger] same_channel(now, proxy, id)
            &&& now.senders == proxy.senders
            &&& now.sock_path == proxy.sock_path
            &&& now.next_channel_id == (new + 1) % 0x1_0000_0000_0000_0000
        }),
{
}

/// Data that arrives for an open channel goes to the connection of that channel: all its bytes, or
/// the end where it has none. Data for any other channel does nothing.
pub proof fn law_data_goes_to_its_channel<W, S>(
    proxy: ProxyView<W, S>,
    channel_id: u64,
    data: Seq<u8>,
)
    ensures
        proxy.inbound(channel_id, data) is Some <==> proxy.channels.contains_key(channel_id),
        proxy.inbound(channel_id, data) matches Some((stream, op)) ==> {
            &&& stream == proxy.channels[channel_id].write_half
            &&& op is ShutdownWrite <==> data.len() == 0
            &&& op matches SocketOpView::WriteAll(bytes) ==> bytes.len() == data.len() && forall|
                i: int,
            | 0 <= i < data.len() ==> bytes[i] == data[i]
        },
{
}

/// The sender that is told of a close is that of the client of the channel. There is none for a
/// channel that is not open, or whose client has none.
pub proof fn law_told_is_the_channels_client<W, S>(
    proxy: ProxyView<W, S>,
    channel_id: u64,
    client: ClientIdView,
)
    ensures
        !proxy.channels.contains_key(channel_id) ==> proxy.sender_of(channel_id) is None,
        proxy.channels.contains_key(channel_id) && proxy.channels[channel_id].client_id == client
            ==> has_sender(proxy, client, proxy.sender_of(channel_id)),
{
}

/// What a close leaves to do: the connection of the channel, if it was open, and a message only
/// where the other end is to be told and the channel's client has a sender. That sender gets it,
/// and it closes this channel.
pub proof fn law_close_leaves_connection_and_message<W, S>(
    proxy: ProxyView<W, S>,
    channel_id: u64,
    notify_remote: bool,
    closed: Option<Closed<W, S>>,
)
    requires
        was_closed(proxy, channel_id, notify_remote, closed),
    ensures
        closed is Some <==> proxy.channels.contains_key(channel_id),
        closed matches Some(c) ==> {
            let channel = proxy.channels[channel_id];
            &&& c.stream == channel.write_half
            &&& c.notice is Some <==> notify_remote && proxy.senders.contains_key(
                channel.client_id,
            )
            &&& c.notice matches Some(n) ==> n.sender == proxy.senders[channel.client_id]
                && n.message == (AgentMessage::Close { channel_id })
        },
{
}

/// When a client goes, what is handed out are its channels, each once, with their connections.
pub proof fn law_streams_are_those_of_the_client<W, S>(
    proxy: ProxyView<W, S>,
    client: ClientIdView,
    streams: Seq<(u64, W)>,
    id: u64,
    stream: W,
)
    requires
        are_streams_of(proxy, client, streams),
    ensures
        streams.contains((id, stream)) <==> proxy.channels.contains_key(id)
            && proxy.channels[id].client_id == client && proxy.channels[id].write_half == stream,
        streams.no_duplicates(),
        forall|i: int, j: int|
            0 <= i < j < streams.len() ==> (#[trigger] streams[i]).0 != (#[trigger] streams[j]).0,
{
    if proxy.channels.contains_key(id) && proxy.channels[id].client_id == client {
        let i = choose|i: int| 0 <= i < streams.len() && (#[trigger] streams[i]).0 == id;
        assert(streams[i].1 == proxy.channels[id].write_half);
    }
}

/// Whether a call is about the sender of `client`.
pub open spec fn is_about_sender<W, S>(event: ProxyEvent<W, S>, client: ClientIdView) -> bool {
    match event {
        ProxyEvent::Register { client: c, sender: _ } => c == client,
        ProxyEvent::Unregister { client: c } => c == client,
        _ => false,
    }
}

/// In every state the last call about the sender of a client decides: after it registered, the
/// client has the sender it registered; after it was unregistered, or without any such call, it has
/// none. Which channels open and close meanwhile, and what other clients do, plays no part.
pub proof fn law_last_registration_counts<W, S>(
    sock_path: Seq<u8>,
    events: Seq<ProxyEvent<W, S>>,
    client: ClientIdView,
    last: int,
)
    requires
        -1 <= last < events.len(),
        last >= 0 ==> is_about_sender(events[last], client),
        forall|k: int|
            last < k < events.len() ==> !is_about_sender(#[trigger] events[k], client),
    ensures
        has_sender(
            run(sock_path, events),
            client,
            if last >= 0 && events[last] is Register {
                Some(events[last]->sender)
            } else {
                None
            },
        ),
    decreases events.len(),
{
    if events.len() > 0 {
        let before = run(sock_path, events.drop_last());
        law_step_keeps_other_senders(before, events.last(), client);
        if last < events.len() - 1 {
            let fewer = events.drop_last();
            assert forall|k: int| last < k < fewer.len() implies !is_about_sender(
                #[trigger] fewer[k],
                client,
            ) by {
                assert(fewer[k] == events[k]);
            }
            law_last_registration_counts(sock_path, fewer, client, last);
            assert(!is_about_sender(events[events.len() - 1], client));
        }
    }
}

/// A call that is not about the sender of a client leaves it as it was.
pub proof fn law_step_keeps_other_senders<W, S>(
    proxy: ProxyView<W, S>,
    event: ProxyEvent<W, S>,
    client: ClientIdView,
)
    ensures
        !is_about_sender(event, client) ==> same_sender(step(proxy, event), proxy, client),
{
}

/// From any state on, a client keeps the sender it has, or stays without one, until a call is about
/// its sender, whatever channels open and close.
pub proof fn law_sender_stays<W, S>(
    proxy: ProxyView<W, S>,
    events: Seq<ProxyEvent<W, S>>,
    client: ClientIdView,
)
    requires
        forall|k: int| 0 <= k < events.len() ==> !is_about_sender(#[trigger] events[k], client),
    ensures
        same_sender(run_from(proxy, events), proxy, client),
    decreases events.len(),
{
    if events.len() > 0 {
        let fewer = events.drop_last();
        assert forall|k: int| 0 <= k < fewer.len() implies !is_about_sender(
            #[trigger] fewer[k],
            client,
        ) by {
            assert(fewer[k] == events[k]);
        }
        law_sender_stays(proxy, fewer, client);
        assert(!is_about_sender(events[events.len() - 1], client));
        law_step_keeps_other_senders(run_from(proxy, fewer), events.last(), client);
    }
}

/// In every state a new connection goes to the chosen client, through the sender that it registered
/// last, unless it was unregistered since or never registered. It is dropped then, and where no
/// client can forward an agent.
pub proof fn law_connection_goes_to_registered<W, S>(
    sock_path: Seq<u8>,
    events: Seq<ProxyEvent<W, S>>,
    clients: Seq<ClientInfo>,
    step: AcceptStep<S>,
    last: int,
)
    requires
        is_accept_step(run(sock_path, events), clients, step),
        winner(clients) matches Some(i) ==> {
            let client = clients[i].client_id@;
            &&& -1 <= last < events.len()
            &&& last >= 0 ==> is_about_sender(events[last], client)
            &&& forall|k: int|
                last < k < events.len() ==> !is_about_sender(#[trigger] events[k], client)
        },
    ensures
        step is NoClient <==> forall|i: int| !#[trigger] forwards_at(clients, i),
        winner(clients) matches Some(i) ==> if last >= 0 && events[last] is Register {
            step matches AcceptStep::Split(pending) && pending.target == clients[i].client_id
                && pending.sender == events[last]->sender
        } else {
            step matches AcceptStep::NoSender { target } && target == clients[i].client_id
        },
{
    law_someone_is_chosen(clients);
    if winner(clients) is Some {
        let i = winner(clients)->0;
        assert(forwards_at(clients, i));
        law_last_registration_counts(sock_path, events, clients[i].client_id@, last);
    }
}

/// The path of the socket never changes.
pub proof fn law_path_stays<W, S>(sock_path: Seq<u8>, events: Seq<ProxyEvent<W, S>>)
    ensures
        run(sock_path, events).sock_path == sock_path,
    decreases events.len(),
{
    if events.len() > 0 {
        law_path_stays(sock_path, events.drop_last());
    }
}

/// In every state the channels lead only to clients that can forward an agent, if channels are
/// opened only to such clients.
pub proof fn law_only_forwarders<W, S>(sock_path: Seq<u8>, events: Seq<ProxyEvent<W, S>>)
    requires
        forall|k: int|
            0 <= k < events.len() && (#[trigger] events[k]) is Accept
                ==> events[k]->Accept_client.ssh_agent_forward,
    ensures
        run(sock_path, events).leads_to_forwarders(),
        forall|id: u64| #[trigger]
            run(sock_path, events).channels.contains_key(id) ==> run(
                sock_path,
                events,
            ).channels[id].client_id.ssh_agent_forward,
    decreases events.len(),
{
    if events.len() > 0 {
        let before = events.drop_last();
        assert forall|k: int| 0 <= k < before.len() && (#[trigger] before[k]) is Accept implies
            before[k]->Accept_client.ssh_agent_forward by {
            assert(before[k] == events[k]);
        }
        law_only_forwarders(sock_path, before);
        assert(events[events.len() - 1] == events.last());
    }
}

/// In every state each channel leads to a client that has a sender, if channels are opened only to
/// clients that have one at that time. When a client goes, its channels go with it.
pub proof fn law_only_registered<W, S>(sock_path: Seq<u8>, events: Seq<ProxyEvent<W, S>>)
    requires
        forall|k: int|
            0 <= k < events.len() && (#[trigger] events[k]) is Accept ==> run(
                sock_path,
                events.take(k),
            ).senders.contains_key(events[k]->Accept_client),
    ensures
        leads_to_registered(run(sock_path, events)),
    decreases events.len(),
{
    if events.len() > 0 {
        let before = events.drop_last();
        assert forall|k: int| 0 <= k < before.len() && (#[trigger] before[k]) is Accept implies run(
            sock_path,
            before.take(k),
        ).senders.contains_key(before[k]->Accept_client) by {
            assert(before[k] == events[k]);
            assert(before.take(k) =~= events.take(k));
        }
        law_only_registered(sock_path, before);
        assert(events[events.len() - 1] == events.last());
        assert(events.take(events.len() - 1) =~= before);
    }
}

/// Identifiers are handed out in turn, from one on, and start over when all have been used.
pub proof fn law_ids_in_turn<W, S>(sock_path: Seq<u8>, events: Seq<ProxyEvent<W, S>>)
    ensures
        run(sock_path, events).next_channel_id == (1 + accepts(events)) % 0x1_0000_0000_0000_0000,
    decreases events.len(),
{
    if events.len() > 0 {
        law_ids_in_turn(sock_path, events.drop_last());
    }
}

/// No two channels get the same identifier, unless one is opened so long after the other that all
/// identifiers have been used in between.
pub proof fn law_ids_differ<W, S>(sock_path: Seq<u8>, events: Seq<ProxyEvent<W, S>>, i: int, j: int)
    requires
        0 <= i < j < events.len(),
        events[i] is Accept,
        events[j] is Accept,
        accepts(events.take(j)) - accepts(events.take(i)) < 0x1_0000_0000_0000_0000,
    ensures
        run(sock_path, events.take(i)).next_channel_id != run(
            sock_path,
            events.take(j),
        ).next_channel_id,
{
    law_ids_in_turn(sock_path, events.take(i));
    law_ids_in_turn(sock_path, events.take(j));
    lemma_accepts_grow(events, i, j);
}

/// Between two openings the count has grown.
proof fn lemma_accepts_grow<W, S>(events: Seq<ProxyEvent<W, S>>, i: int, j: int)
    requires
        0 <= i < j <= events.len(),
        events[i] is Accept,
    ensures
        accepts(events.take(j)) > accepts(events.take(i)),
    decreases j,
{
    assert(events.take(j).drop_last() =~= events.take(j - 1));
    if i < j - 1 {
        lemma_accepts_grow(events, i, j - 1);
    }
}

/// A new channel does not take the identifier of one that is open, until all identifiers have been
/// used once.
pub proof fn law_new_id_is_free<W, S>(sock_path: Seq<u8>, events: Seq<ProxyEvent<W, S>>)
    requires
        accepts(events) <= u64::MAX,
    ensures
        ({
            let proxy = run(sock_path, events);
            &&& !proxy.channels.contains_key(proxy.next_channel_id)
            &&& forall|id: u64| #[trigger]
                proxy.channels.contains_key(id) ==> 1 <= id <= accepts(events)
        }),
    decreases events.len(),
{
    law_ids_in_turn(sock_path, events);
    if events.len() > 0 {
        law_new_id_is_free(sock_path, events.drop_last());
        law_ids_in_turn(sock_path, events.drop_last());
    }
}

/// A channel stays open, with its connection and its client, until it is closed or its client
/// goes, whatever else happens. Left out is that so many channels are opened meanwhile that its
/// identifier comes up again.
pub proof fn law_channel_stays_open<W, S>(
    proxy: ProxyView<W, S>,
    events: Seq<ProxyEvent<W, S>>,
    channel_id: u64,
)
    requires
        proxy.channels.contains_key(channel_id),
        forall|k: int|
            0 <= k < events.len() ==> !closes(#[trigger] events[k], channel_id) && events[k] != (
            ProxyEvent::<W, S>::Unregister { client: proxy.channels[channel_id].client_id }),
        accepts(events) <= (channel_id - proxy.next_channel_id) % 0x1_0000_0000_0000_0000,
    ensures
        ({
            let now = run_from(proxy, events);
            &&& now.channels.contains_key(channel_id)
            &&& now.channels[channel_id] == proxy.channels[channel_id]
            &&& now.next_channel_id == (proxy.next_channel_id + accepts(events))
                % 0x1_0000_0000_0000_0000
        }),
    decreases events.len(),
{
    if events.len() > 0 {
        let before = events.drop_last();
        assert forall|k: int| 0 <= k < before.len() implies !closes(
            #[trigger] before[k],
            channel_id,
        ) && before[k] != (ProxyEvent::<W, S>::Unregister {
            client: proxy.channels[channel_id].client_id,
        }) by {
            assert(before[k] == events[k]);
        }
        law_channel_stays_open(proxy, before, channel_id);
        assert(events[events.len() - 1] == events.last());
    }
}

/// A channel that is open in a state has been opened by a call, under the identifier that came up
/// then and with that call's connection and client, and neither was it closed since nor has its
/// client gone. Here is the place of that call.
pub proof fn law_open_channel_was_accepted<W, S>(
    sock_path: Seq<u8>,
    events: Seq<ProxyEvent<W, S>>,
    channel_id: u64,
) -> (at: int)
    requires
        run(sock_path, events).channels.contains_key(channel_id),
    ensures
        0 <= at < events.len(),
        run(sock_path, events.take(at)).next_channel_id == channel_id,
        events[at] == (ProxyEvent::<W, S>::Accept {
            client: run(sock_path, events).channels[channel_id].client_id,
            write_half: run(sock_path, events).channels[channel_id].write_half,
        }),
        forall|k: int|
            at < k < events.len() ==> !closes(#[trigger] events[k], channel_id) && events[k] != (
            ProxyEvent::<W, S>::Unregister {
                client: run(sock_path, events).channels[channel_id].client_id,
            }),
    decreases events.len(),
{
    let n = events.len() - 1;
    let fewer = events.drop_last();
    let before = run(sock_path, fewer);
    assert(events.len() > 0);
    assert(events.take(n) =~= fewer);
    assert(events[n] == events.last());
    if opens(before, events.last(), channel_id) {
        n
    } else {
        let at = law_open_channel_was_accepted(sock_path, fewer, channel_id);
        assert(events.take(at) =~= fewer.take(at));
        assert forall|k: int| at < k < events.len() implies !closes(
            #[trigger] events[k],
            channel_id,
        ) && events[k] != (ProxyEvent::<W, S>::Unregister {
            client: run(sock_path, events).channels[channel_id].client_id,
        }) by {
            if k < n {
                assert(fewer[k] == events[k]);
            }
        }
        at
    }
}

/// A new channel is routed both ways: what arrives for it goes to its connection, and its client's
/// sender is told when it closes.
pub proof fn law_new_channel_is_routed<W, S>(
    proxy: ProxyView<W, S>,
    client: ClientIdView,
    write_half: W,
)
    requires
        proxy.senders.contains_key(client),
    ensures
        ({
            let opened = proxy.accept(client, write_half);
            let id = proxy.next_channel_id;
            &&& opened.channels.contains_key(id)
            &&& opened.channels[id] == (ChannelView { write_half, client_id: client })
            &&& opened.sender_of(id) == Some(proxy.senders[client])
        }),
{
}

/// Closing undoes opening: the channels are those from before.
pub proof fn law_close_undoes_accept<W, S>(
    proxy: ProxyView<W, S>,
    client: ClientIdView,
    write_half: W,
)
    requires
        !proxy.channels.contains_key(proxy.next_channel_id),
    ensures
        ({
            let closed = proxy.accept(client, write_half).close(proxy.next_channel_id);
            &&& closed.channels == proxy.channels
            &&& closed.senders == proxy.senders
        }),
{
    assert(proxy.accept(client, write_half).close(proxy.next_channel_id).channels
        =~= proxy.channels);
}

/// A call on one channel leaves the others alone: opening keeps every other channel, closing too.
pub proof fn law_channels_are_independent<W, S>(
    proxy: ProxyView<W, S>,
    client: ClientIdView,
    write_half: W,
    channel_id: u64,
    other: u64,
)
    ensures
        other != proxy.next_channel_id ==> {
            &&& proxy.accept(client, write_half).channels.contains_key(other)
                == proxy.channels.contains_key(other)
            &&& proxy.accept(client, write_half).channels[other] == proxy.channels[other]
        },
        other != channel_id ==> {
            &&& proxy.close(channel_id).channels.contains_key(other)
                == proxy.channels.contains_key(other)
            &&& proxy.close(channel_id).channels[other] == proxy.channels[other]
        },
{
}

/// A channel is closed once. Closing it again finds nothing to shut down and tells nobody, and data
/// that still arrives for it is dropped.
pub proof fn law_closed_once<W, S>(
    proxy: ProxyView<W, S>,
    channel_id: u64,
    notify_remote: bool,
    closed: Option<Closed<W, S>>,
)
    requires
        was_closed(proxy.close(channel_id), channel_id, notify_remote, closed),
    ensures
        closed is None,
        proxy.close(channel_id).close(channel_id) == proxy.close(channel_id),
        forall|data: Seq<u8>| #[trigger] proxy.close(channel_id).inbound(channel_id, data) is None,
{
    assert(proxy.close(channel_id).close(channel_id) =~= proxy.close(channel_id));
}

/// A call that closes a channel hands out a message exactly when `tells` says so, and it is the
/// one that closes this channel.
pub proof fn law_telling_is_handed_out<W, S>(
    proxy: ProxyView<W, S>,
    channel_id: u64,
    notify_remote: bool,
    closed: Option<Closed<W, S>>,
)
    requires
        was_closed(proxy, channel_id, notify_remote, closed),
    ensures
        tells(proxy, ProxyEvent::Close { channel_id, notify_remote }, channel_id) <==> (closed
            is Some && closed->0.notice is Some),
        closed is Some && closed->0.notice is Some ==> closed->0.notice->0.message@ == (
        MessageView::Close { channel_id }),
{
}

/// A sequence of calls can be cut in two.
proof fn lemma_cut<W, S>(
    proxy: ProxyView<W, S>,
    first: Seq<ProxyEvent<W, S>>,
    second: Seq<ProxyEvent<W, S>>,
    channel_id: u64,
)
    ensures
        run_from(proxy, first + second) == run_from(run_from(proxy, first), second),
        told(proxy, first + second, channel_id) == told(proxy, first, channel_id) + told(
            run_from(proxy, first),
            second,
            channel_id,
        ),
        opened(proxy, first + second, channel_id) == opened(proxy, first, channel_id) + opened(
            run_from(proxy, first),
            second,
            channel_id,
        ),
    decreases second.len(),
{
    if second.len() == 0 {
        assert(first + second =~= first);
    } else {
        lemma_cut(proxy, first, second.drop_last(), channel_id);
        assert((first + second).drop_last() =~= first + second.drop_last());
        assert((first + second).last() == second.last());
    }
}

/// Over any sequence of calls the messages that close a channel are no more than the channels that
/// were opened under its identifier, and one less while one of them is still open.
pub proof fn law_told_no_more_than_opened<W, S>(
    proxy: ProxyView<W, S>,
    events: Seq<ProxyEvent<W, S>>,
    channel_id: u64,
)
    ensures
        told(proxy, events, channel_id) + (if run_from(proxy, events).channels.contains_key(
            channel_id,
        ) {
            1nat
        } else {
            0nat
        }) <= opened(proxy, events, channel_id) + (if proxy.channels.contains_key(channel_id) {
            1nat
        } else {
            0nat
        }),
    decreases events.len(),
{
    if events.len() > 0 {
        law_told_no_more_than_opened(proxy, events.drop_last(), channel_id);
    }
}

/// An identifier is given to one channel at most, until all identifiers have been used once.
pub proof fn law_id_is_used_once<W, S>(
    sock_path: Seq<u8>,
    events: Seq<ProxyEvent<W, S>>,
    channel_id: u64,
)
    requires
        accepts(events) <= 0x1_0000_0000_0000_0000,
    ensures
        opened(ProxyView::initial(sock_path), events, channel_id) == (if (channel_id - 1)
            % 0x1_0000_0000_0000_0000 < accepts(events) {
            1nat
        } else {
            0nat
        }),
    decreases events.len(),
{
    if events.len() > 0 {
        law_id_is_used_once(sock_path, events.drop_last(), channel_id);
        law_ids_in_turn(sock_path, events.drop_last());
    }
}

/// Over any sequence of calls at most one message that closes a channel is handed out, until all
/// identifiers have been used once.
pub proof fn law_close_is_told_once<W, S>(
    sock_path: Seq<u8>,
    events: Seq<ProxyEvent<W, S>>,
    channel_id: u64,
)
    requires
        accepts(events) <= 0x1_0000_0000_0000_0000,
    ensures
        told(ProxyView::initial(sock_path), events, channel_id) <= 1,
{
    law_told_no_more_than_opened(ProxyView::initial(sock_path), events, channel_id);
    law_id_is_used_once(sock_path, events, channel_id);
}

/// Over any sequence of calls no message that closes a channel is handed out if the call that
/// removed the channel told nobody, as when the client closed it, when it was closed without a
/// notice or when the client went, until all identifiers have been used once.
pub proof fn law_silent_close_stays_silent<W, S>(
    sock_path: Seq<u8>,
    events: Seq<ProxyEvent<W, S>>,
    channel_id: u64,
    i: int,
)
    requires
        accepts(events) <= 0x1_0000_0000_0000_0000,
        0 <= i < events.len(),
        run(sock_path, events.take(i)).channels.contains_key(channel_id),
        !run(sock_path, events.take(i + 1)).channels.contains_key(channel_id),
        !tells(run(sock_path, events.take(i)), events[i], channel_id),
    ensures
        told(ProxyView::initial(sock_path), events, channel_id) == 0,
{
    let start = ProxyView::<W, S>::initial(sock_path);
    let before = events.take(i);
    let until = events.take(i + 1);
    let after = events.skip(i + 1);
    assert(until.drop_last() =~= before);
    assert(until + after =~= events);
    lemma_cut(start, until, after, channel_id);
    law_told_no_more_than_opened(start, before, channel_id);
    law_told_no_more_than_opened(run_from(start, until), after, channel_id);
    law_id_is_used_once(sock_path, events, channel_id);
}

/// When a client goes, the connection of each of its channels is handed out, to be shut down, and
/// no other is: those that are not handed out still belong to a channel.
pub proof fn law_no_connection_is_lost<W, S>(
    proxy: ProxyView<W, S>,
    client: ClientIdView,
    streams: Seq<(u64, W)>,
    id: u64,
)
    requires
        are_streams_of(proxy, client, streams),
        proxy.channels.contains_key(id),
    ensures
        proxy.unregister(client).channels.contains_key(id) <==> !streams.contains(
            (id, proxy.channels[id].write_half),
        ),
{
    if proxy.channels[id].client_id == client {
        let i = choose|i: int| 0 <= i < streams.len() && (#[trigger] streams[i]).0 == id;
        assert(streams[i] == (id, proxy.channels[id].write_half));
    }
}

/// A close from the client is not answered: neither when it is handled nor when the pump of the
/// channel finishes after it.
pub proof fn law_remote_close_is_not_answered<W, S>(
    proxy: ProxyView<W, S>,
    channel_id: u64,
    by_client: Option<Closed<W, S>>,
    by_pump: Option<Closed<W, S>>,
)
    requires
        was_closed(proxy, channel_id, false, by_client),
        was_closed(proxy.close(channel_id), channel_id, true, by_pump),
    ensures
        by_client matches Some(c) ==> c.notice is None,
        by_pump is None,
{
}

/// A close on this side is told to the client that the channel leads to, and to no other.
pub proof fn law_local_close_is_told<W, S>(
    proxy: ProxyView<W, S>,
    channel_id: u64,
    closed: Option<Closed<W, S>>,
)
    requires
        leads_to_registered(proxy),
        proxy.channels.contains_key(channel_id),
        was_closed(proxy, channel_id, true, closed),
    ensures
        closed matches Some(c) && c.notice matches Some(n) && n.sender
            == proxy.senders[proxy.channels[channel_id].client_id],
{
}

/// When a client goes, none of its channels stays, so that data for them is dropped. Those of the
/// other clients stay as they are.
pub proof fn law_unregister_is_exact<W, S>(proxy: ProxyView<W, S>, client: ClientIdView, id: u64)
    ensures
        ({
            let left = proxy.unregister(client);
            &&& !left.senders.contains_key(client)
            &&& left.channels.contains_key(id) ==> left.channels[id].client_id != client
            &&& proxy.channels.contains_key(id) && proxy.channels[id].client_id == client
                ==> forall|data: Seq<u8>| #[trigger] left.inbound(id, data) is None
            &&& proxy.channels.contains_key(id) && proxy.channels[id].client_id != client ==> {
                &&& left.channels.contains_key(id)
                &&& left.channels[id] == proxy.channels[id]
                &&& left.sender_of(id) == proxy.sender_of(id)
            }
        }),
{
}

/// A client that registers again replaces its sender. Its channels stay and use the new one.
pub proof fn law_latest_sender_counts<W, S>(
    proxy: ProxyView<W, S>,
    client: ClientIdView,
    first: Arc<S>,
    second: Arc<S>,
)
    ensures
        proxy.register(client, first).register(client, second) == proxy.register(client, second),
        forall|id: u64|
            proxy.channels.contains_key(id) && proxy.channels[id].client_id == client
                ==> #[trigger] proxy.register(client, second).sender_of(id) == Some(second),
{
    assert(proxy.register(client, first).register(client, second) =~= proxy.register(
        client,
        second,
    ));
}

/// Unregistering undoes registering a client that had neither a sender nor channels.
pub proof fn law_unregister_undoes_register<W, S>(
    proxy: ProxyView<W, S>,
    client: ClientIdView,
    sender: Arc<S>,
)
    requires
        !proxy.senders.contains_key(client),
        forall|id: u64| #[trigger]
            proxy.channels.contains_key(id) ==> proxy.channels[id].client_id != client,
    ensures
        proxy.register(client, sender).unregister(client) == proxy,
{
    assert(proxy.register(client, sender).unregister(client) =~= proxy);
}

} // verus!
