//! Choice of the client that a new connection to the agent socket is bridged to.

use crate::client::{is_proxy, share, ClientId, ClientInfo};
use crate::timestamp::{delayed, earlier, representable, Timestamp};
use std::sync::Arc;
use vstd::prelude::*;

verus! {

/// Milliseconds by which the last input of a proxy client counts as more recent than it was.
/// A proxy and the gui behind it are touched together, the gui often last: without the bonus the
/// choice would alternate between the two.
pub const PROXY_BONUS_MS: i64 = 100;

/// Whether the `i`-th client can be chosen at all.
pub open spec fn is_candidate(clients: Seq<ClientInfo>, i: int) -> bool {
    0 <= i < clients.len() && clients[i].client_id.ssh_agent_forward
}

/// The moment that a client is ranked by.
pub open spec fn rank(client: ClientInfo) -> (int, int) {
    if is_proxy(client.client_id@) {
        delayed(client.last_input@, PROXY_BONUS_MS as int)
    } else {
        client.last_input@
    }
}

/// Whether the calendar can represent the moment that a client is ranked by.
pub open spec fn has_rank(client: ClientInfo) -> bool {
    is_proxy(client.client_id@) ==> representable(client.last_input@) && representable(
        rank(client),
    )
}

/// Whether the candidates can be compared: where there are at least two, each has a rank.
pub open spec fn comparable(clients: Seq<ClientInfo>) -> bool {
    forall|i: int, j: int|
        i != j && #[trigger] is_candidate(clients, i) && #[trigger] is_candidate(clients, j)
            ==> has_rank(clients[i])
}

/// Whether the choice among the first `n` clients falls on the `i`-th: no candidate outranks it,
/// and none before it ranks the same.
pub open spec fn wins_among(clients: Seq<ClientInfo>, n: int, i: int) -> bool {
    &&& is_candidate(clients, i)
    &&& i < n
    &&& forall|j: int|
        j < n && #[trigger] is_candidate(clients, j) ==> !earlier(
            rank(clients[i]),
            rank(clients[j]),
        )
    &&& forall|j: int|
        j < i && #[trigger] is_candidate(clients, j) ==> earlier(rank(clients[j]), rank(clients[i]))
}

/// Whether the choice falls on the `i`-th client.
pub open spec fn wins(clients: Seq<ClientInfo>, i: int) -> bool {
    wins_among(clients, clients.len() as int, i)
}

/// Position of the client that the choice falls on, if there is a candidate.
pub open spec fn winner(clients: Seq<ClientInfo>) -> Option<int> {
    if exists|i: int| wins(clients, i) {
        Some(choose|i: int| wins(clients, i))
    } else {
        None
    }
}

/// The choice falls on at most one client.
pub proof fn lemma_winner_unique(clients: Seq<ClientInfo>, i: int, j: int)
    requires
        wins(clients, i),
        wins(clients, j),
    ensures
        i == j,
{
    if i < j {
        assert(is_candidate(clients, i));
    } else if j < i {
        assert(is_candidate(clients, j));
    }
}

/// The moment that `client` is ranked by.
fn adjust(client: &ClientInfo) -> (moment: Timestamp)
    requires
        has_rank(*client),
    ensures
        moment@ == rank(*client),
{
    if client.client_id.is_proxy() {
        client.last_input.after_millis(PROXY_BONUS_MS)
    } else {
        client.last_input
    }
}

/// Whether the moment that `client` is ranked by can be computed.
fn can_adjust(client: &ClientInfo) -> (yes: bool)
    ensures
        yes == has_rank(*client),
{
    !client.client_id.is_proxy() || client.last_input.has_after_millis(PROXY_BONUS_MS)
}

/// Whether `pick_target_client` can choose among `clients`. It cannot where a proxy's last input
/// lies at the very end of the calendar and there is another candidate to compare it with.
pub fn can_pick(clients: &Vec<ClientInfo>) -> (yes: bool)
    ensures
        yes == comparable(clients@),
{
    for i in 0..clients.len()
        invariant
            forall|a: int, b: int|
                a < i && a != b && #[trigger] is_candidate(clients@, a)
                    && #[trigger] is_candidate(clients@, b) ==> has_rank(clients@[a]),
    {
        if clients[i].client_id.ssh_agent_forward && !can_adjust(&clients[i]) {
            for j in 0..clients.len()
                invariant
                    i < clients.len(),
                    is_candidate(clients@, i as int),
                    !has_rank(clients@[i as int]),
                    forall|b: int| b < j && b != i ==> !#[trigger] is_candidate(clients@, b),
            {
                if j != i && clients[j].client_id.ssh_agent_forward {
                    assert(is_candidate(clients@, j as int));
                    return false;
                }
            }
        }
    }
    true
}

/// Chooses the client for a new connection: of those that can forward an agent the most recently
/// active one, where a proxy counts as active a little later than it was. Of equally ranked
/// clients the first is chosen.
pub fn pick_target_client(clients: &Vec<ClientInfo>) -> (picked: Option<Arc<ClientId>>)
    requires
        comparable(clients@),
    ensures
        picked is None <==> forall|i: int| !#[trigger] is_candidate(clients@, i),
        picked is None <==> forall|i: int|
            0 <= i < clients@.len() ==> !(#[trigger] clients@[i]).client_id.ssh_agent_forward,
        picked matches Some(client) ==> client.ssh_agent_forward && exists|i: int|
            0 <= i < clients@.len() && (#[trigger] clients@[i]).client_id == client,
        match winner(clients@) {
            Some(i) => wins(clients@, i) && picked == Some(clients@[i].client_id),
            None => picked is None,
        },
{
    let mut best: Option<usize> = None;
    for n in 0..clients.len()
        invariant
            comparable(clients@),
            best is None ==> forall|j: int| j < n ==> !#[trigger] is_candidate(clients@, j),
            best matches Some(b) ==> wins_among(clients@, n as int, b as int),
    {
        if clients[n].client_id.ssh_agent_forward {
            assert(is_candidate(clients@, n as int));
            match best {
                None => {
                    best = Some(n);
                },
                Some(b) => {
                    assert(is_candidate(clients@, b as int));
                    if adjust(&clients[b]).is_earlier_than(&adjust(&clients[n])) {
                        best = Some(n);
                    }
                },
            }
        }
    }
    match best {
        None => {
            assert forall|i: int| 0 <= i < clients@.len() implies !(
            #[trigger] clients@[i]).client_id.ssh_agent_forward by {
                assert(!is_candidate(clients@, i));
            }
            None
        },
        Some(b) => {
            proof {
                assert(wins(clients@, b as int));
                lemma_winner_unique(clients@, b as int, winner(clients@)->0);
            }
            Some(share(&clients[b].client_id))
        },
    }
}

} // verus!
