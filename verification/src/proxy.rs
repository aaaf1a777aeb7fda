//! The server side: the proxy behind the agent socket.
//!
//! Processes on the server connect to the agent socket. Each connection becomes a channel to the
//! most recently active client that can forward an agent. The proxy keeps the channels and the
//! clients' senders, and says what is to be done with sockets and senders; the caller does it.

use crate::client::{share, ClientId, ClientIdView, ClientInfo};
use crate::client_map::ClientMap;
use crate::message::{op_for, AgentMessage, Halves, MessageView, SocketOp, SocketOpView};
use crate::pick::{comparable, pick_target_client, winner, wins};
use crate::socket_path::{agent_socket_path, socket_path};
use std::collections::HashMap;
use std::sync::Arc;
use vstd::prelude::*;

verus! {

broadcast use vstd::std_specs::hash::group_hash_axioms;

/// A connection to the agent socket that is bridged to a client.
struct ChannelEntry<W> {
    /// Takes what the client sends back.
    write_half: W,
    client_id: Arc<ClientId>,
}

/// State of the proxy. `W` writes to a local connection, `S` sends messages to a client.
pub struct AgentProxy<W, S> {
    sock_path: Vec<u8>,
    senders: ClientMap<Arc<S>>,
    channels: HashMap<u64, ChannelEntry<W>>,
    next_channel_id: u64,
}

/// What a channel is made of.
pub struct ChannelView<W> {
    pub write_half: W,
    pub client_id: ClientIdView,
}

/// What the proxy knows.
#[verifier::ext_equal]
pub struct ProxyView<W, S> {
    pub sock_path: Seq<u8>,
    pub senders: Map<ClientIdView, Arc<S>>,
    pub channels: Map<u64, ChannelView<W>>,
    pub next_channel_id: u64,
}

impl<W, S> ProxyView<W, S> {
    /// A proxy without clients and channels.
    pub open spec fn initial(sock_path: Seq<u8>) -> Self {
        ProxyView { sock_path, senders: Map::empty(), channels: Map::empty(), next_channel_id: 1 }
    }

    /// The proxy after a client has registered its sender.
    pub open spec fn register(self, client: ClientIdView, sender: Arc<S>) -> Self {
        ProxyView { senders: self.senders.insert(client, sender), ..self }
    }

    /// The proxy after a client has gone, and its channels with it.
    pub open spec fn unregister(self, client: ClientIdView) -> Self {
        ProxyView {
            senders: self.senders.remove(client),
            channels: self.channels.restrict(
                Set::new(
                    |id: u64|
                        self.channels.contains_key(id) && self.channels[id].client_id != client,
                ),
            ),
            ..self
        }
    }

    /// The proxy after it has opened a channel. Identifiers are handed out in turn.
    pub open spec fn accept(self, client: ClientIdView, write_half: W) -> Self {
        ProxyView {
            channels: self.channels.insert(
                self.next_channel_id,
                ChannelView { write_half, client_id: client },
            ),
            next_channel_id: if self.next_channel_id == u64::MAX {
                0
            } else {
                (self.next_channel_id + 1) as u64
            },
            ..self
        }
    }

    /// The proxy after it has closed a channel.
    pub open spec fn close(self, channel_id: u64) -> Self {
        ProxyView { channels: self.channels.remove(channel_id), ..self }
    }

    /// What arriving data does: to which connection, and what. Without the channel it is dropped.
    pub open spec fn inbound(self, channel_id: u64, data: Seq<u8>) -> Option<(W, SocketOpView)> {
        if self.channels.contains_key(channel_id) {
            Some((self.channels[channel_id].write_half, op_for(data)))
        } else {
            None
        }
    }

    /// The sender that is told when channel `channel_id` closes on this side.
    pub open spec fn sender_of(self, channel_id: u64) -> Option<Arc<S>> {
        if self.channels.contains_key(channel_id) && self.senders.contains_key(
            self.channels[channel_id].client_id,
        ) {
            Some(self.senders[self.channels[channel_id].client_id])
        } else {
            None
        }
    }
}

impl<W, S> ProxyView<W, S> {
    /// Channels lead only to clients that can forward an agent.
    pub open spec fn leads_to_forwarders(self) -> bool {
        forall|id: u64| #[trigger]
            self.channels.contains_key(id) ==> self.channels[id].client_id.ssh_agent_forward
    }
}

impl<W> ChannelEntry<W> {
    spec fn view(&self) -> ChannelView<W> {
        ChannelView { write_half: self.write_half, client_id: self.client_id@ }
    }
}

impl<W, S> View for AgentProxy<W, S> {
    type V = ProxyView<W, S>;

    closed spec fn view(&self) -> ProxyView<W, S> {
        ProxyView {
            sock_path: self.sock_path@,
            senders: self.senders@,
            channels: self.channels@.map_values(|entry: ChannelEntry<W>| entry.view()),
            next_channel_id: self.next_channel_id,
        }
    }
}

/// A message and the sender that takes it.
pub struct Notice<S> {
    pub sender: Arc<S>,
    pub message: AgentMessage,
}

/// What is left to do when a channel has been removed.
pub struct Closed<W, S> {
    /// To be shut down in both directions, so that the local process sees the end and the pump
    /// that reads the connection finishes.
    pub stream: W,
    /// To be sent afterwards.
    pub notice: Option<Notice<S>>,
}

/// What becomes of a new connection to the agent socket.
pub enum AcceptStep<S> {
    /// Drop the connection: no client can forward an agent.
    NoClient,
    /// Drop the connection: the chosen client is known but has no sender, or no longer one.
    NoSender { target: Arc<ClientId> },
    /// Split the connection into a read half and a write half, then go on with
    /// `AgentProxy::complete_accepted`.
    Split(PendingChannel<S>),
}

/// A channel that is about to be opened.
pub struct PendingChannel<S> {
    pub target: Arc<ClientId>,
    pub sender: Arc<S>,
}

/// A channel that has been opened.
pub struct OpenedChannel<R, S> {
    pub channel_id: u64,
    /// Sends `message` now, and what the pump reads later.
    pub sender: Arc<S>,
    pub message: AgentMessage,
    /// For the pump. When it finishes, `AgentProxy::pump_finished` is told.
    pub read_half: R,
}

/// Removes the given channels and hands out the write halves of those that existed.
fn take_streams<W>(channels: &mut HashMap<u64, ChannelEntry<W>>, ids: &Vec<u64>) -> (streams: Vec<
    (u64, W),
>)
    ensures
        final(channels)@ == old(channels)@.remove_keys(ids@.to_set()),
        forall|k: int|
            0 <= k < streams@.len() ==> {
                &&& ids@.contains((#[trigger] streams@[k]).0)
                &&& old(channels)@.contains_key(streams@[k].0)
                &&& old(channels)@[streams@[k].0].write_half == streams@[k].1
            },
        forall|j: int, k: int|
            0 <= j < k < streams@.len() ==> (#[trigger] streams@[j]).0 != (
            #[trigger] streams@[k]).0,
        forall|id: u64|
            (#[trigger] ids@.contains(id)) && old(channels)@.contains_key(id) ==> exists|k: int|
                0 <= k < streams@.len() && (#[trigger] streams@[k]).0 == id,
{
    let mut streams: Vec<(u64, W)> = Vec::new();
    assert(channels@ =~= channels@.remove_keys(ids@.take(0).to_set()));
    for i in 0..ids.len()
        invariant
            channels@ == old(channels)@.remove_keys(ids@.take(i as int).to_set()),
            forall|k: int|
                0 <= k < streams@.len() ==> {
                    &&& ids@.take(i as int).contains((#[trigger] streams@[k]).0)
                    &&& old(channels)@.contains_key(streams@[k].0)
                    &&& old(channels)@[streams@[k].0].write_half == streams@[k].1
                },
            forall|j: int, k: int|
                0 <= j < k < streams@.len() ==> (#[trigger] streams@[j]).0 != (
                #[trigger] streams@[k]).0,
            forall|id: u64|
                ids@.take(i as int).contains(id) && (#[trigger] old(channels)@.contains_key(id))
                    ==> exists|k: int| 0 <= k < streams@.len() && (#[trigger] streams@[k]).0 == id,
    {
        let ghost some = ids@.take(i as int);
        let ghost more = ids@.take(i + 1);
        let ghost taken = streams@;
        proof {
            assert(more =~= some.push(ids@[i as int]));
            assert forall|id: u64| #[trigger] more.contains(id) <==> some.contains(id) || id
                == ids@[i as int] by {
                if some.contains(id) {
                    let j = choose|j: int| 0 <= j < some.len() && some[j] == id;
                    assert(more[j] == id);
                }
                assert(more[i as int] == ids@[i as int]);
            }
        }
        match channels.remove(&ids[i]) {
            Some(entry) => {
                streams.push((ids[i], entry.write_half));
            },
            None => {},
        }
        proof {
            assert(channels@ =~= old(channels)@.remove_keys(more.to_set()));
            assert forall|id: u64|
                more.contains(id) && (#[trigger] old(channels)@.contains_key(id)) implies
                exists|k: int| 0 <= k < streams@.len() && (#[trigger] streams@[k]).0 == id by {
                if some.contains(id) {
                    let k = choose|k: int| 0 <= k < taken.len() && (#[trigger] taken[k]).0 == id;
                    assert(streams@[k].0 == id);
                } else {
                    assert(streams@[taken.len() as int].0 == id);
                }
            }
        }
    }
    assert(ids@.take(ids@.len() as int) =~= ids@);
    streams
}

/// Whether `streams` are the connections of the channels that lead to `client`, each once and
/// with the identifier of its channel.
pub open spec fn are_streams_of<W, S>(
    proxy: ProxyView<W, S>,
    client: ClientIdView,
    streams: Seq<(u64, W)>,
) -> bool {
    &&& forall|i: int|
        0 <= i < streams.len() ==> {
            &&& proxy.channels.contains_key((#[trigger] streams[i]).0)
            &&& proxy.channels[streams[i].0] == (ChannelView {
                write_half: streams[i].1,
                client_id: client,
            })
        }
    &&& forall|i: int, j: int|
        0 <= i < j < streams.len() ==> (#[trigger] streams[i]).0 != (#[trigger] streams[j]).0
    &&& forall|id: u64|
        (#[trigger] proxy.channels.contains_key(id)) && proxy.channels[id].client_id == client
            ==> exists|i: int| 0 <= i < streams.len() && (#[trigger] streams[i]).0 == id
}

/// Whether `closed` is what is left to do when channel `channel_id` of `proxy` is removed: its
/// stream is handed out if it existed, and with `notify_remote` its client's sender gets a message
/// if it has one.
pub open spec fn was_closed<W, S>(
    proxy: ProxyView<W, S>,
    channel_id: u64,
    notify_remote: bool,
    closed: Option<Closed<W, S>>,
) -> bool {
    match closed {
        Some(c) => {
            &&& proxy.channels.contains_key(channel_id)
            &&& c.stream == proxy.channels[channel_id].write_half
            &&& match c.notice {
                Some(n) => {
                    &&& notify_remote
                    &&& proxy.sender_of(channel_id) == Some(n.sender)
                    &&& n.message@ == (MessageView::Close { channel_id })
                },
                None => !notify_remote || proxy.sender_of(channel_id) is None,
            }
        },
        None => !proxy.channels.contains_key(channel_id),
    }
}

/// Whether `step` is what becomes of a new connection when these clients are connected: it is
/// bridged to the chosen client, through that client's sender, if there is one.
pub open spec fn is_accept_step<W, S>(
    proxy: ProxyView<W, S>,
    clients: Seq<ClientInfo>,
    step: AcceptStep<S>,
) -> bool {
    match winner(clients) {
        None => step is NoClient,
        Some(i) => {
            let target = clients[i].client_id;
            if proxy.senders.contains_key(target@) {
                step == AcceptStep::Split(
                    PendingChannel { target, sender: proxy.senders[target@] },
                )
            } else {
                step == AcceptStep::<S>::NoSender { target }
            }
        },
    }
}

impl<W, S> AgentProxy<W, S> {
    /// Each client has one sender, and channels lead only to clients that can forward an agent.
    pub closed spec fn well_formed(self) -> bool {
        &&& self.senders.well_formed()
        &&& self@.leads_to_forwarders()
    }

    /// The channels of a proxy lead only to clients that can forward an agent.
    pub proof fn law_leads_to_forwarders(&self)
        requires
            self.well_formed(),
        ensures
            self@.leads_to_forwarders(),
            forall|id: u64| #[trigger]
                self@.channels.contains_key(id) ==> self@.channels[id].client_id.ssh_agent_forward,
    {
    }

    /// A proxy of process `pid`, without clients and channels. Its socket is `agent.PID` in the
    /// runtime directory.
    pub fn new(runtime_dir: &[u8], pid: i32) -> (proxy: Self)
        ensures
            proxy.well_formed(),
            proxy@ == ProxyView::<W, S>::initial(agent_socket_path(runtime_dir@, pid)),
            proxy@.senders == Map::<ClientIdView, Arc<S>>::empty(),
            proxy@.channels == Map::<u64, ChannelView<W>>::empty(),
            proxy@.next_channel_id == 1,
    {
        let proxy = AgentProxy {
            sock_path: socket_path(runtime_dir, pid),
            senders: ClientMap::new(),
            channels: HashMap::new(),
            next_channel_id: 1,
        };
        assert(proxy@ =~= ProxyView::<W, S>::initial(agent_socket_path(runtime_dir@, pid)));
        proxy
    }

    /// Path of the agent socket.
    pub fn path(&self) -> (path: &[u8])
        ensures
            path@ == self@.sock_path,
    {
        self.sock_path.as_slice()
    }

    /// Path of the agent socket that processes use when none is given to them: the configured one,
    /// or else the one from the environment.
    pub fn default_ssh_auth_sock(configured: Option<String>, environment: Option<String>) -> (path:
        Option<String>)
        ensures
            path == (if configured is Some { configured } else { environment }),
    {
        match configured {
            Some(value) => Some(value),
            None => environment,
        }
    }

    /// A client has been active. The target is chosen when a connection comes in, so there is
    /// nothing to do.
    pub fn update_target(&self) {
    }

    /// Registers the sender of a client that can forward an agent.
    pub fn register_client(&mut self, client_id: ClientId, sender: Arc<S>)
        requires
            old(self).well_formed(),
        ensures
            final(self).well_formed(),
            final(self)@ == old(self)@.register(client_id@, sender),
            final(self)@.senders == old(self)@.senders.insert(client_id@, sender),
            final(self)@.channels == old(self)@.channels,
            final(self)@.sock_path == old(self)@.sock_path,
            final(self)@.next_channel_id == old(self)@.next_channel_id,
    {
        self.senders.insert(client_id, sender);
        assert(self@.channels =~= old(self)@.channels);
    }

    /// Forgets the sender of a client and removes the channels that lead to it. Returns their
    /// connections, to be shut down in both directions, so that the local processes see the end
    /// and the pumps that read the connections finish. The client is not told.
    pub fn unregister_client(&mut self, client_id: &ClientId) -> (streams: Vec<(u64, W)>)
        requires
            old(self).well_formed(),
        ensures
            final(self).well_formed(),
            final(self)@ == old(self)@.unregister(client_id@),
            final(self)@.senders == old(self)@.senders.remove(client_id@),
            forall|id: u64| #[trigger]
                final(self)@.channels.contains_key(id) <==> old(self)@.channels.contains_key(id)
                    && old(self)@.channels[id].client_id != client_id@,
            forall|id: u64| #[trigger]
                final(self)@.channels.contains_key(id) ==> final(self)@.channels[id]
                    == old(self)@.channels[id],
            final(self)@.sock_path == old(self)@.sock_path,
            final(self)@.next_channel_id == old(self)@.next_channel_id,
            are_streams_of(old(self)@, client_id@, streams@),
    {
        self.senders.remove(client_id);
        let gone = self.channels_of(client_id);
        let streams = take_streams(&mut self.channels, &gone);
        proof {
            assert(self@ =~= old(self)@.unregister(client_id@));
            assert forall|id: u64|
                (#[trigger] old(self)@.channels.contains_key(id))
                    && old(self)@.channels[id].client_id == client_id@ implies exists|i: int|
                0 <= i < streams@.len() && (#[trigger] streams@[i]).0 == id by {
                assert(gone@.contains(id));
            }
        }
        streams
    }

    /// Identifiers of the channels that lead to a client.
    fn channels_of(&self, client_id: &ClientId) -> (ids: Vec<u64>)
        ensures
            forall|id: u64| #[trigger]
                ids@.contains(id) <==> self.channels@.contains_key(id)
                    && self.channels@[id].client_id@ == client_id@,
    {
        let mut ids: Vec<u64> = Vec::new();
        for id in it: self.channels.keys()
            invariant
                it.seq().unref().to_set() == self.channels@.dom(),
                forall|i: int|
                    0 <= i < it.index() && self.channels@[*it.seq()[i]].client_id@ == client_id@
                        ==> ids@.contains(*#[trigger] it.seq()[i]),
                forall|i: int|
                    0 <= i < ids@.len() ==> self.channels@.contains_key(#[trigger] ids@[i])
                        && self.channels@[ids@[i]].client_id@ == client_id@,
        {
            let ghost before = ids@;
            assert(it.seq().unref()[it.index()] == *id);
            assert(it.seq().unref().to_set().contains(*id));
            match self.channels.get(id) {
                Some(entry) => {
                    if entry.client_id.is_same(client_id) {
                        ids.push(*id);
                        assert(ids@[before.len() as int] == *id);
                    }
                },
                None => {},
            }
            assert forall|x: u64| before.contains(x) implies #[trigger] ids@.contains(x) by {
                let i = choose|i: int| 0 <= i < before.len() && before[i] == x;
                assert(ids@[i] == x);
            }
        }
        ids
    }

    /// Data for a channel has arrived from its client: what to do, and to which connection.
    /// Data for a channel that does not exist is dropped.
    pub fn handle_inbound_data<'a, 'b>(&'a self, channel_id: u64, data: &'b [u8]) -> (op: Option<
        (&'a W, SocketOp<&'b [u8]>),
    >)
        ensures
            match op {
                Some((stream, op)) => self@.inbound(channel_id, data@) == Some((*stream, op@)),
                None => self@.inbound(channel_id, data@) is None,
            },
            op is Some <==> self@.channels.contains_key(channel_id),
            op matches Some((stream, op)) ==> *stream == self@.channels[channel_id].write_half
                && op == (if data@.len() == 0 {
                SocketOp::ShutdownWrite
            } else {
                SocketOp::WriteAll(data)
            }),
    {
        match self.channels.get(&channel_id) {
            None => None,
            Some(entry) => {
                let op = if data.is_empty() {
                    // Half-close: the local process sees the end, and the pump that reads its
                    // connection finishes when its read brings nothing.
                    SocketOp::ShutdownWrite
                } else {
                    SocketOp::WriteAll(data)
                };
                Some((&entry.write_half, op))
            },
        }
    }

    /// The bytes of inbound data have been written, or could not be. A channel whose connection
    /// cannot be written to is closed, and its client is told.
    pub fn complete_inbound_data(&mut self, channel_id: u64, written: bool) -> (closed: Option<
        Closed<W, S>,
    >)
        requires
            old(self).well_formed(),
        ensures
            final(self).well_formed(),
            written ==> closed is None && final(self)@ == old(self)@,
            !written ==> {
                &&& final(self)@ == old(self)@.close(channel_id)
                &&& final(self)@.channels == old(self)@.channels.remove(channel_id)
                &&& was_closed(old(self)@, channel_id, true, closed)
            },
            final(self)@.senders == old(self)@.senders,
            final(self)@.sock_path == old(self)@.sock_path,
            final(self)@.next_channel_id == old(self)@.next_channel_id,
    {
        if written {
            None
        } else {
            self.close_channel(channel_id, true)
        }
    }

    /// The pump of a channel has finished: the channel is closed, if it still is open, and its
    /// client is told.
    pub fn pump_finished(&mut self, channel_id: u64) -> (closed: Option<Closed<W, S>>)
        requires
            old(self).well_formed(),
        ensures
            final(self).well_formed(),
            final(self)@ == old(self)@.close(channel_id),
            final(self)@.channels == old(self)@.channels.remove(channel_id),
            final(self)@.senders == old(self)@.senders,
            final(self)@.sock_path == old(self)@.sock_path,
            final(self)@.next_channel_id == old(self)@.next_channel_id,
            was_closed(old(self)@, channel_id, true, closed),
    {
        self.close_channel(channel_id, true)
    }

    /// The client has closed a channel. It is not told in turn.
    pub fn handle_inbound_close(&mut self, channel_id: u64) -> (closed: Option<Closed<W, S>>)
        requires
            old(self).well_formed(),
        ensures
            final(self).well_formed(),
            final(self)@ == old(self)@.close(channel_id),
            final(self)@.channels == old(self)@.channels.remove(channel_id),
            final(self)@.senders == old(self)@.senders,
            final(self)@.sock_path == old(self)@.sock_path,
            final(self)@.next_channel_id == old(self)@.next_channel_id,
            was_closed(old(self)@, channel_id, false, closed),
    {
        self.close_channel(channel_id, false)
    }

    /// Removes a channel. With `notify_remote` its client is told, if it is still registered.
    pub fn close_channel(&mut self, channel_id: u64, notify_remote: bool) -> (closed: Option<
        Closed<W, S>,
    >)
        requires
            old(self).well_formed(),
        ensures
            final(self).well_formed(),
            final(self)@ == old(self)@.close(channel_id),
            final(self)@.channels == old(self)@.channels.remove(channel_id),
            final(self)@.senders == old(self)@.senders,
            final(self)@.sock_path == old(self)@.sock_path,
            final(self)@.next_channel_id == old(self)@.next_channel_id,
            was_closed(old(self)@, channel_id, notify_remote, closed),
    {
        let entry = self.channels.remove(&channel_id);
        assert(self@ =~= old(self)@.close(channel_id));
        match entry {
            None => None,
            Some(entry) => {
                let notice = if notify_remote {
                    match self.senders.get(&entry.client_id) {
                        Some(sender) => Some(
                            Notice {
                                sender: share(sender),
                                message: AgentMessage::Close { channel_id },
                            },
                        ),
                        None => None,
                    }
                } else {
                    None
                };
                Some(Closed { stream: entry.write_half, notice })
            },
        }
    }

    /// A process has connected to the agent socket: chooses the client to bridge it to.
    pub fn handle_accepted(&self, clients: &Vec<ClientInfo>) -> (step: AcceptStep<S>)
        requires
            self.well_formed(),
            comparable(clients@),
        ensures
            is_accept_step(self@, clients@, step),
            match winner(clients@) {
                None => step is NoClient,
                Some(i) => {
                    let target = clients@[i].client_id;
                    &&& wins(clients@, i)
                    &&& if self@.senders.contains_key(target@) {
                        step == AcceptStep::Split(
                            PendingChannel { target, sender: self@.senders[target@] },
                        )
                    } else {
                        step == AcceptStep::<S>::NoSender { target }
                    }
                },
            },
    {
        match pick_target_client(clients) {
            None => AcceptStep::NoClient,
            Some(target) => match self.senders.get(&target) {
                Some(sender) => {
                    let sender = share(sender);
                    AcceptStep::Split(PendingChannel { target, sender })
                },
                None => AcceptStep::NoSender { target },
            },
        }
    }

    /// A connection has been split, or could not be. With both halves at hand, the channel is
    /// opened; otherwise the caller has dropped the connection and nothing changes.
    pub fn complete_accepted<R>(
        &mut self,
        pending: PendingChannel<S>,
        halves: Option<Halves<R, W>>,
    ) -> (opened: Option<OpenedChannel<R, S>>)
        requires
            old(self).well_formed(),
            pending.target.ssh_agent_forward,
        ensures
            final(self).well_formed(),
            match halves {
                None => opened is None && final(self)@ == old(self)@,
                Some(halves) => {
                    &&& final(self)@ == old(self)@.accept(pending.target@, halves.write_half)
                    &&& final(self)@.channels == old(self)@.channels.insert(
                        old(self)@.next_channel_id,
                        ChannelView {
                            write_half: halves.write_half,
                            client_id: pending.target@,
                        },
                    )
                    &&& final(self)@.next_channel_id == (old(self)@.next_channel_id + 1)
                        % 0x1_0000_0000_0000_0000
                    &&& opened matches Some(o) && o.message == (AgentMessage::Open {
                        channel_id: o.channel_id,
                    })
                    &&& opened matches Some(o) && o.channel_id == old(self)@.next_channel_id
                        && o.sender == pending.sender && o.message@ == (MessageView::Open {
                        channel_id: old(self)@.next_channel_id,
                    }) && o.read_half == halves.read_half
                },
            },
            final(self)@.senders == old(self)@.senders,
            final(self)@.sock_path == old(self)@.sock_path,
    {
        match halves {
            None => None,
            Some(halves) => {
                let channel_id = self.next_channel_id;
                self.next_channel_id = channel_id.wrapping_add(1);
                self.channels.insert(
                    channel_id,
                    ChannelEntry { write_half: halves.write_half, client_id: pending.target },
                );
                assert(self@ =~= old(self)@.accept(pending.target@, halves.write_half));
                Some(
                    OpenedChannel {
                        channel_id,
                        sender: pending.sender,
                        message: AgentMessage::Open { channel_id },
                        read_half: halves.read_half,
                    },
                )
            },
        }
    }
}

} // verus!
