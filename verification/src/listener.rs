//! The loop that waits for connections to the agent socket.

use vstd::prelude::*;

verus! {

/// Milliseconds to wait after a failed accept, so that an error that persists, such as a lack of
/// file descriptors, does not keep the loop busy.
pub const ACCEPT_RETRY_MS: u64 = 100;

/// What has happened at the agent socket.
pub enum ListenerEvent {
    /// The socket has been bound.
    Bound,
    /// The socket could not be bound.
    BindFailed,
    /// A process has connected. `agent_present` tells whether there is a proxy to serve it.
    Accepted { agent_present: bool },
    /// A connection could not be accepted.
    AcceptFailed,
}

/// What to do next.
#[derive(Debug, PartialEq, Eq)]
pub enum ListenerStep {
    /// Wait for a connection.
    Accept,
    /// Hand the connection to the proxy, then wait for the next one.
    Serve,
    /// Drop the connection and wait for the next one.
    Drop,
    /// Sleep, then wait for a connection.
    Pause { millis: u64 },
    /// Do not wait for connections.
    GiveUp,
}

/// Decides what follows an event at the agent socket.
pub fn accept_loop(event: ListenerEvent) -> (step: ListenerStep)
    ensures
        step is Accept <==> event is Bound,
        step is GiveUp <==> event is BindFailed,
        step is Serve <==> event == (ListenerEvent::Accepted { agent_present: true }),
        step is Drop <==> event == (ListenerEvent::Accepted { agent_present: false }),
        event is AcceptFailed <==> step == (ListenerStep::Pause { millis: ACCEPT_RETRY_MS }),
        step matches ListenerStep::Pause { millis } ==> event is AcceptFailed && millis == 100,
{
    match event {
        ListenerEvent::Bound => ListenerStep::Accept,
        ListenerEvent::BindFailed => ListenerStep::GiveUp,
        ListenerEvent::Accepted { agent_present } => {
            if agent_present {
                ListenerStep::Serve
            } else {
                ListenerStep::Drop
            }
        },
        ListenerEvent::AcceptFailed => ListenerStep::Pause { millis: ACCEPT_RETRY_MS },
    }
}

} // verus!
