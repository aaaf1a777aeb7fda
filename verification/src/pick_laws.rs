//! What the choice of a client guarantees.

use crate::client::ClientInfo;
use crate::client_laws::{is_marked, law_name_tells_proxy};
use crate::pick::{
    comparable, has_rank, is_candidate, lemma_winner_unique, rank, winner, wins, wins_among,
    PROXY_BONUS_MS,
};
use crate::timestamp::{delayed, earlier, representable};
use crate::timestamp_laws::{is_later_by, law_delay_passes_time, nanos_since_epoch};
use vstd::prelude::*;

verus! {

/// Among the first `n` clients the choice falls on one, if one of them is a candidate.
proof fn lemma_choice_among(clients: Seq<ClientInfo>, n: int) -> (i: int)
    requires
        0 <= n <= clients.len(),
        exists|j: int| j < n && #[trigger] is_candidate(clients, j),
    ensures
        wins_among(clients, n, i),
    decreases n,
{
    let last = n - 1;
    if exists|j: int| j < last && #[trigger] is_candidate(clients, j) {
        let best = lemma_choice_among(clients, last);
        if is_candidate(clients, last) && earlier(rank(clients[best]), rank(clients[last])) {
            last
        } else {
            best
        }
    } else {
        assert(is_candidate(clients, last));
        last
    }
}

/// The choice falls on a candidate, if there is one.
proof fn lemma_choice(clients: Seq<ClientInfo>)
    ensures
        winner(clients) is Some <==> exists|j: int| is_candidate(clients, j),
        winner(clients) matches Some(i) ==> is_candidate(clients, i) && wins(clients, i),
{
    if exists|j: int| is_candidate(clients, j) {
        let i = lemma_choice_among(clients, clients.len() as int);
        assert(wins(clients, i));
    }
}

/// Whether the `i`-th client is there and can forward an agent.
pub open spec fn forwards_at(clients: Seq<ClientInfo>, i: int) -> bool {
    0 <= i < clients.len() && clients[i].client_id.ssh_agent_forward
}

/// Whether `a` comes before `b`.
pub open spec fn is_before(a: (int, int), b: (int, int)) -> bool {
    a.0 < b.0 || (a.0 == b.0 && a.1 < b.1)
}

/// The moment of a client's last input: seconds, and nanoseconds within them.
pub open spec fn touched(client: ClientInfo) -> (int, int) {
    (client.last_input.secs as int, client.last_input.nanos as int)
}

/// Whether a client is one behind a proxy process, as its host name tells.
pub open spec fn is_behind_proxy(client: ClientInfo) -> bool {
    is_marked(client.client_id.hostname@)
}

/// Whether `moment` is a tenth of a second after the client's last input.
pub open spec fn is_end_of_bonus(client: ClientInfo, moment: (int, int)) -> bool {
    is_later_by(touched(client), moment, 100_000_000)
}

/// Whether a client counts as last active at `moment`: a proxy a tenth of a second after its last
/// input, any other client at its last input.
pub open spec fn counts_at(client: ClientInfo, moment: (int, int)) -> bool {
    if is_behind_proxy(client) {
        is_end_of_bonus(client, moment)
    } else {
        moment == touched(client)
    }
}

/// A client counts as last active at one moment, the one that it is ranked by.
pub proof fn law_rank_is_when_it_counts(client: ClientInfo, moment: (int, int))
    ensures
        counts_at(client, moment) ==> moment == rank(client),
        client.last_input.nanos < 2_000_000_000 ==> counts_at(client, rank(client)),
{
    law_name_tells_proxy(client.client_id@);
    law_delay_passes_time(touched(client), 100, moment);
}

/// A client is chosen exactly when one of the clients can forward an agent, and the chosen one
/// can.
pub proof fn law_someone_is_chosen(clients: Seq<ClientInfo>)
    ensures
        winner(clients) is Some <==> exists|j: int| forwards_at(clients, j),
        winner(clients) matches Some(i) ==> forwards_at(clients, i) && wins(clients, i),
{
    lemma_choice(clients);
    if winner(clients) is Some {
        assert(forwards_at(clients, winner(clients)->0));
    }
    assert forall|j: int| forwards_at(clients, j) implies #[trigger] is_candidate(clients, j) by {}
    if exists|j: int| forwards_at(clients, j) {
        assert(is_candidate(clients, choose|j: int| forwards_at(clients, j)));
    }
}

/// The chosen client comes before every other that can forward an agent: the other counts as last
/// active before it, or at the same moment and is listed after it. With `law_someone_is_chosen`
/// this says which client is chosen.
pub proof fn law_chosen_comes_first(
    clients: Seq<ClientInfo>,
    i: int,
    j: int,
    at: (int, int),
    other: (int, int),
)
    requires
        winner(clients) == Some(i),
        forwards_at(clients, j),
        j != i,
        counts_at(clients[i], at),
        counts_at(clients[j], other),
    ensures
        is_before(other, at) || (other == at && i < j),
{
    law_someone_is_chosen(clients);
    law_rank_is_when_it_counts(clients[i], at);
    law_rank_is_when_it_counts(clients[j], other);
    assert(is_candidate(clients, j));
}

/// The most recently active client is chosen: no client of the same kind, proxy or not, that can
/// forward an agent has been active later than the chosen one. Left out is a proxy active in a leap
/// second, where the bonus carries the chosen proxy from just before that leap second past it.
pub proof fn law_most_recent_is_chosen(clients: Seq<ClientInfo>, i: int, j: int)
    requires
        winner(clients) == Some(i),
        forwards_at(clients, j),
        is_behind_proxy(clients[i]) == is_behind_proxy(clients[j]),
        !({
            let a = touched(clients[i]);
            let b = touched(clients[j]);
            is_behind_proxy(clients[i]) && a.0 == b.0 && 900_000_000 <= a.1 < 1_000_000_000 <= b.1
        }),
        clients[i].last_input.nanos < 2_000_000_000,
        clients[j].last_input.nanos < 2_000_000_000,
    ensures
        !is_before(touched(clients[i]), touched(clients[j])),
{
    law_someone_is_chosen(clients);
    law_name_tells_proxy(clients[i].client_id@);
    law_name_tells_proxy(clients[j].client_id@);
    assert(is_candidate(clients, j));
}

/// A proxy keeps the channel from a gui that was touched less than a tenth of a second after it:
/// such a gui is not chosen while the proxy can forward an agent. What tells a proxy from a gui is
/// the host name, and `end` is the moment at which the tenth of a second is over.
pub proof fn law_proxy_precedes_gui(
    clients: Seq<ClientInfo>,
    proxy: int,
    gui: int,
    end: (int, int),
)
    requires
        forwards_at(clients, proxy),
        is_marked(clients[proxy].client_id.hostname@),
        forwards_at(clients, gui),
        !is_marked(clients[gui].client_id.hostname@),
        is_end_of_bonus(clients[proxy], end),
        is_before(touched(clients[gui]), end),
    ensures
        winner(clients) is Some,
        winner(clients) != Some(gui),
{
    law_someone_is_chosen(clients);
    law_rank_is_when_it_counts(clients[proxy], end);
    law_name_tells_proxy(clients[gui].client_id@);
    assert(is_candidate(clients, proxy));
}

/// A proxy and its gui do not take turns: with no other client that can forward an agent, the proxy
/// is chosen wherever the gui was touched less than a tenth of a second after the proxy, in
/// whichever order they are listed.
pub proof fn law_choice_does_not_flap(
    clients: Seq<ClientInfo>,
    proxy: int,
    gui: int,
    end: (int, int),
)
    requires
        forwards_at(clients, proxy),
        is_marked(clients[proxy].client_id.hostname@),
        forwards_at(clients, gui),
        !is_marked(clients[gui].client_id.hostname@),
        forall|k: int| #[trigger] forwards_at(clients, k) ==> k == proxy || k == gui,
        is_end_of_bonus(clients[proxy], end),
        is_before(touched(clients[gui]), end),
    ensures
        winner(clients) == Some(proxy),
{
    law_proxy_precedes_gui(clients, proxy, gui, end);
    law_someone_is_chosen(clients);
}

/// The bonus has an end: a gui touched more than a tenth of a second after the proxy is preferred
/// to it.
pub proof fn law_gui_takes_over(
    clients: Seq<ClientInfo>,
    proxy: int,
    gui: int,
    end: (int, int),
)
    requires
        forwards_at(clients, proxy),
        is_marked(clients[proxy].client_id.hostname@),
        forwards_at(clients, gui),
        !is_marked(clients[gui].client_id.hostname@),
        is_end_of_bonus(clients[proxy], end),
        is_before(end, touched(clients[gui])),
    ensures
        winner(clients) is Some,
        winner(clients) != Some(proxy),
{
    law_someone_is_chosen(clients);
    law_rank_is_when_it_counts(clients[proxy], end);
    law_name_tells_proxy(clients[gui].client_id@);
    assert(is_candidate(clients, gui));
}

/// Guis get no bonus among each other, however short the time between them: the one touched later
/// is preferred.
pub proof fn law_later_gui_is_preferred(clients: Seq<ClientInfo>, early: int, late: int)
    requires
        forwards_at(clients, early),
        !is_marked(clients[early].client_id.hostname@),
        forwards_at(clients, late),
        !is_marked(clients[late].client_id.hostname@),
        is_before(touched(clients[early]), touched(clients[late])),
    ensures
        winner(clients) is Some,
        winner(clients) != Some(early),
{
    law_someone_is_chosen(clients);
    law_name_tells_proxy(clients[early].client_id@);
    law_name_tells_proxy(clients[late].client_id@);
    assert(is_candidate(clients, late));
}

/// The bonus is one: it leads to a later moment.
pub proof fn law_bonus_is_later(moment: (int, int))
    requires
        representable(moment),
    ensures
        earlier(moment, delayed(moment, PROXY_BONUS_MS as int)),
{
}

/// A proxy counts as active later than it was.
pub proof fn law_proxy_counts_later(client: ClientInfo)
    requires
        is_marked(client.client_id.hostname@),
        client.last_input.nanos < 2_000_000_000,
    ensures
        is_before(touched(client), rank(client)),
{
    law_name_tells_proxy(client.client_id@);
}

/// Of equally ranked candidates the one listed first is chosen.
pub proof fn law_first_of_equals(clients: Seq<ClientInfo>, i: int, j: int)
    requires
        winner(clients) == Some(i),
        is_candidate(clients, j),
        rank(clients[i]) == rank(clients[j]),
    ensures
        i <= j,
{
    law_someone_is_chosen(clients);
}

/// Of clients that can forward an agent and count as last active at one moment, the one listed
/// first is chosen.
pub proof fn law_first_at_one_moment(clients: Seq<ClientInfo>, i: int, j: int, moment: (int, int))
    requires
        winner(clients) == Some(i),
        forwards_at(clients, j),
        counts_at(clients[i], moment),
        counts_at(clients[j], moment),
    ensures
        i <= j,
{
    if i != j {
        law_chosen_comes_first(clients, i, j, moment, moment);
    }
}

/// Only a proxy can be beyond comparison, and only where its last input lies outside of the
/// calendar, or within the last tenth of the calendar's last second or of that one's leap second.
pub proof fn law_rank_is_missing_at_the_end(client: ClientInfo)
    ensures
        !has_rank(client) <==> {
            &&& is_marked(client.client_id.hostname@)
            &&& {
                ||| client.last_input.secs < -8_334_601_228_800
                ||| client.last_input.secs > 8_210_266_876_799
                ||| client.last_input.nanos >= 2_000_000_000
                ||| client.last_input.secs == 8_210_266_876_799 && client.last_input.nanos
                    >= 1_900_000_000
                ||| client.last_input.secs == 8_210_266_876_799 && 900_000_000
                    <= client.last_input.nanos < 1_000_000_000
            }
        },
{
    law_name_tells_proxy(client.client_id@);
}

/// Clients can be compared exactly when none that can forward an agent is beyond comparison, or it
/// is the only one that can.
pub proof fn law_comparable_unless_at_the_end(clients: Seq<ClientInfo>)
    ensures
        comparable(clients) <==> forall|i: int, j: int|
            #[trigger] forwards_at(clients, i) && #[trigger] forwards_at(clients, j) && i != j
                ==> has_rank(clients[i]),
{
    assert forall|j: int| #[trigger] forwards_at(clients, j) <==> is_candidate(clients, j) by {}
    if comparable(clients) {
        assert forall|i: int, j: int|
            #[trigger] forwards_at(clients, i) && #[trigger] forwards_at(clients, j) && i
                != j implies has_rank(clients[i]) by {
            assert(is_candidate(clients, i));
            assert(is_candidate(clients, j));
        }
    }
    if forall|i: int, j: int|
        #[trigger] forwards_at(clients, i) && #[trigger] forwards_at(clients, j) && i != j
            ==> has_rank(clients[i]) {
        assert forall|i: int, j: int|
            i != j && #[trigger] is_candidate(clients, i) && #[trigger] is_candidate(
                clients,
                j,
            ) implies has_rank(clients[i]) by {
            assert(forwards_at(clients, i));
            assert(forwards_at(clients, j));
        }
    }
}

/// The client that is chosen.
pub open spec fn chosen(clients: Seq<ClientInfo>) -> Option<ClientInfo> {
    match winner(clients) {
        Some(i) => Some(clients[i]),
        None => None,
    }
}

/// One more client at the end is chosen if it can forward an agent and outranks the others, and
/// changes nothing otherwise.
proof fn lemma_one_more(clients: Seq<ClientInfo>, more: ClientInfo)
    ensures
        chosen(clients.push(more)) == (if more.client_id.ssh_agent_forward && (chosen(clients)
            matches Some(best) ==> earlier(rank(best), rank(more))) {
            Some(more)
        } else {
            chosen(clients)
        }),
{
    let all = clients.push(more);
    let n = clients.len() as int;
    lemma_choice(clients);
    lemma_choice(all);
    assert forall|k: int| #[trigger] is_candidate(all, k) && k != n implies is_candidate(
        clients,
        k,
    ) by {}
    assert forall|k: int| #[trigger] is_candidate(clients, k) implies is_candidate(all, k) by {}
    if winner(all) is Some {
        let i = winner(all)->0;
        if chosen(clients) is Some {
            let b = winner(clients)->0;
            let w = if more.client_id.ssh_agent_forward && earlier(rank(clients[b]), rank(more)) {
                n
            } else {
                b
            };
            assert(is_candidate(all, w));
            assert forall|j: int| #[trigger] is_candidate(all, j) implies !earlier(
                rank(all[w]),
                rank(all[j]),
            ) && (j < w ==> earlier(rank(all[j]), rank(all[w]))) by {
                if j != n {
                    assert(is_candidate(clients, j));
                }
            }
            assert(wins(all, w));
            lemma_winner_unique(all, w, i);
        } else {
            if i != n {
                assert(is_candidate(clients, i));
            }
        }
    } else if chosen(clients) is Some {
        assert(is_candidate(all, winner(clients)->0));
    } else if more.client_id.ssh_agent_forward {
        assert(is_candidate(all, n));
    }
}

/// Whether a client can forward an agent, as a predicate.
pub open spec fn forwards() -> spec_fn(ClientInfo) -> bool {
    |client: ClientInfo| client.client_id.ssh_agent_forward
}

/// The choice is made among the clients that can forward an agent alone.
proof fn lemma_choice_among_forwarders(clients: Seq<ClientInfo>)
    ensures
        chosen(clients) == chosen(clients.filter(forwards())),
    decreases clients.len(),
{
    reveal(Seq::filter);
    if clients.len() > 0 {
        let fewer = clients.drop_last();
        lemma_choice_among_forwarders(fewer);
        lemma_one_more(fewer, clients.last());
        assert(fewer.push(clients.last()) =~= clients);
        lemma_one_more(fewer.filter(forwards()), clients.last());
    }
}

/// Clients that cannot forward an agent play no part, however many there are and wherever they are
/// listed: two lists with the same clients that can, in the same order, give the same choice.
pub proof fn law_others_play_no_part(clients: Seq<ClientInfo>, others: Seq<ClientInfo>)
    requires
        clients.filter(forwards()) == others.filter(forwards()),
    ensures
        chosen(clients) == chosen(others),
{
    lemma_choice_among_forwarders(clients);
    lemma_choice_among_forwarders(others);
}

/// Whether `b` is `shift` nanoseconds after `a`, and neither lies in a leap second.
pub open spec fn is_shifted(a: (int, int), b: (int, int), shift: int) -> bool {
    &&& 0 <= a.1 < 1_000_000_000
    &&& 0 <= b.1 < 1_000_000_000
    &&& nanos_since_epoch(b) == nanos_since_epoch(a) + shift
}

/// Only the time between inputs matters: where the last inputs of all candidates are shifted by the
/// same duration, the choice falls on the same client. Leap seconds, which a shift leaves, are left
/// out.
pub proof fn law_shift_changes_nothing(
    clients: Seq<ClientInfo>,
    shifted: Seq<ClientInfo>,
    shift: int,
)
    requires
        clients.len() == shifted.len(),
        forall|i: int|
            0 <= i < clients.len() ==> (#[trigger] shifted[i]).client_id == clients[i].client_id,
        forall|i: int| #[trigger]
            is_candidate(clients, i) ==> is_shifted(
                clients[i].last_input@,
                shifted[i].last_input@,
                shift,
            ),
    ensures
        winner(shifted) == winner(clients),
{
    assert forall|i: int| #[trigger] is_candidate(shifted, i) <==> is_candidate(clients, i) by {
        if 0 <= i < clients.len() {
            assert(shifted[i].client_id == clients[i].client_id);
        }
    }
    lemma_choice(clients);
    lemma_choice(shifted);
    if winner(clients) is Some {
        let w = winner(clients)->0;
        assert(is_candidate(shifted, w));
        assert forall|j: int| #[trigger] is_candidate(shifted, j) implies !earlier(
            rank(shifted[w]),
            rank(shifted[j]),
        ) && (j < w ==> earlier(rank(shifted[j]), rank(shifted[w]))) by {
            assert(is_candidate(clients, j));
            assert(shifted[j].client_id == clients[j].client_id);
            assert(shifted[w].client_id == clients[w].client_id);
        }
        assert(wins(shifted, w));
        lemma_winner_unique(shifted, w, winner(shifted)->0);
    } else if winner(shifted) is Some {
        assert(is_candidate(clients, winner(shifted)->0));
    }
}

} // verus!
