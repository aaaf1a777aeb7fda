//! How clients are told apart, and which of them are proxies.

use crate::client::{is_proxy, occurs_in, ClientId, ClientIdView};
use vstd::prelude::*;

verus! {

/// A host name that holds the note of a proxy process, between two texts.
pub open spec fn marked(before: Seq<char>, after: Seq<char>) -> Seq<char> {
    before + "via proxy pid"@ + after
}

/// Whether a host name holds the note of a proxy process, wherever it stands in it.
pub open spec fn is_marked(hostname: Seq<char>) -> bool {
    exists|before: Seq<char>, after: Seq<char>| hostname == #[trigger] marked(before, after)
}

/// A text is found in every text that it is a part of.
pub proof fn law_part_is_found(before: Seq<char>, needle: Seq<char>, after: Seq<char>)
    ensures
        occurs_in(needle, before + needle + after),
{
    let text = before + needle + after;
    let i = before.len() as int;
    assert(text.subrange(i, i + needle.len()) =~= needle);
}

/// A text is found only in a text that it is a part of: here are the texts before and after it.
pub proof fn law_found_is_a_part(needle: Seq<char>, text: Seq<char>) -> (around: (
    Seq<char>,
    Seq<char>,
))
    requires
        occurs_in(needle, text),
    ensures
        text == around.0 + needle + around.1,
{
    let i = choose|i: int|
        0 <= i <= text.len() - needle.len() && #[trigger] text.subrange(i, i + needle.len())
            == needle;
    let before = text.take(i);
    let after = text.skip(i + needle.len());
    let part = text.subrange(i, i + needle.len());
    assert(text =~= before + part + after);
    (before, after)
}

/// A client whose host name holds the note of a proxy process is a proxy, whatever stands before
/// and after the note and whatever else identifies the client.
pub proof fn law_marked_client_is_proxy(
    before: Seq<char>,
    after: Seq<char>,
    id: u64,
    ssh_agent_forward: bool,
)
    ensures
        is_proxy(
            ClientIdView {
                hostname: before + "via proxy pid"@ + after,
                id,
                ssh_agent_forward,
            },
        ),
{
    law_part_is_found(before, "via proxy pid"@, after);
}

/// A client whose host name has no position at which the note of a proxy process stands is no
/// proxy.
pub proof fn law_unmarked_client_is_no_proxy(client: ClientIdView)
    requires
        forall|i: int|
            0 <= i <= client.hostname.len() - "via proxy pid"@.len() ==> #[trigger]
            client.hostname.subrange(i, i + "via proxy pid"@.len()) != "via proxy pid"@,
    ensures
        !is_proxy(client),
{
}

/// A client is a proxy exactly when its host name holds the note of a proxy process.
pub proof fn law_name_tells_proxy(client: ClientIdView)
    ensures
        is_proxy(client) <==> is_marked(client.hostname),
{
    if is_proxy(client) {
        let (before, after) = law_found_is_a_part("via proxy pid"@, client.hostname);
        assert(client.hostname == marked(before, after));
    }
    if is_marked(client.hostname) {
        let (before, after) = choose|before: Seq<char>, after: Seq<char>|
            client.hostname == #[trigger] marked(before, after);
        law_part_is_found(before, "via proxy pid"@, after);
    }
}

/// A longer host name around a proxy's is a proxy's too.
pub proof fn law_proxy_stays_proxy(
    client: ClientIdView,
    other: ClientIdView,
    before: Seq<char>,
    after: Seq<char>,
)
    requires
        is_proxy(client),
        other.hostname == before + client.hostname + after,
    ensures
        is_proxy(other),
{
    let note = "via proxy pid"@;
    let (a, b) = law_found_is_a_part(note, client.hostname);
    assert(other.hostname =~= (before + a) + note + (b + after));
    law_part_is_found(before + a, note, b + after);
}

/// Two clients are the same exactly when host name, number and readiness to forward agree.
pub proof fn law_identity_is_all_fields(a: ClientId, b: ClientId)
    ensures
        a@ == b@ <==> a.hostname@ == b.hostname@ && a.id == b.id && a.ssh_agent_forward
            == b.ssh_agent_forward,
        a@.hostname == a.hostname@,
        a@.ssh_agent_forward == a.ssh_agent_forward,
{
}

} // verus!
