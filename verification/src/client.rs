//! Clients of the multiplexer, as far as agent forwarding looks at them.

use crate::timestamp::Timestamp;
use std::sync::Arc;
use vstd::prelude::*;

verus! {

/// Text that the host name of a proxy client holds.
pub const PROXY_MARKER: &'static str = "via proxy pid";

/// Identity of a client. Two clients are the same when all fields agree.
#[derive(Debug)]
pub struct ClientId {
    /// Host the client runs on, with a note when it sits behind a proxy process.
    pub hostname: String,
    /// Tells apart the clients of one host.
    pub id: u64,
    /// Whether the client can forward an agent.
    pub ssh_agent_forward: bool,
}

/// What identifies a client.
pub struct ClientIdView {
    pub hostname: Seq<char>,
    pub id: u64,
    pub ssh_agent_forward: bool,
}

impl View for ClientId {
    type V = ClientIdView;

    open spec fn view(&self) -> ClientIdView {
        ClientIdView {
            hostname: self.hostname@,
            id: self.id,
            ssh_agent_forward: self.ssh_agent_forward,
        }
    }
}

/// A connected client and the moment of its last input.
#[derive(Debug)]
pub struct ClientInfo {
    pub client_id: Arc<ClientId>,
    pub last_input: Timestamp,
}

/// Whether `needle` occurs in `text` as a run of consecutive characters.
pub open spec fn occurs_in(needle: Seq<char>, text: Seq<char>) -> bool {
    exists|i: int|
        0 <= i <= text.len() - needle.len() && #[trigger] text.subrange(i, i + needle.len())
            == needle
}

/// Whether the client sits behind a proxy process.
pub open spec fn is_proxy(client: ClientIdView) -> bool {
    occurs_in(PROXY_MARKER@, client.hostname)
}

/// Searches a string by `str::contains`.
///
/// Trusted: the answer is whether `needle` is a part of `text`.
#[verifier::external_body]
fn str_contains(text: &str, needle: &str) -> (found: bool)
    ensures
        found == occurs_in(needle@, text@),
{
    text.contains(needle)
}

/// Makes another pointer to the same value.
pub(crate) fn share<T>(value: &Arc<T>) -> (shared: Arc<T>)
    ensures
        shared == *value,
{
    value.clone()
}

impl ClientId {
    /// Whether both identify the same client.
    pub fn is_same(&self, other: &ClientId) -> (same: bool)
        ensures
            same == (self@ == other@),
            same == (self.hostname@ == other.hostname@ && self.id == other.id
                && self.ssh_agent_forward == other.ssh_agent_forward),
    {
        self.id == other.id && self.ssh_agent_forward == other.ssh_agent_forward && self.hostname
            == other.hostname
    }

    /// Whether the client sits behind a proxy process, which its host name tells.
    pub fn is_proxy(&self) -> (yes: bool)
        ensures
            yes == is_proxy(self@),
            yes == exists|i: int|
                0 <= i <= self.hostname@.len() - "via proxy pid"@.len() && #[trigger]
                self.hostname@.subrange(i, i + "via proxy pid"@.len()) == "via proxy pid"@,
    {
        str_contains(self.hostname.as_str(), PROXY_MARKER)
    }
}

} // verus!
