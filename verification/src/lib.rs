//! Forwarding of an SSH agent over a multiplexer connection: the decisions, without the I/O.
//!
//! On the server, [`proxy`] stands behind the agent socket and bridges each connection to it to a
//! client. On the client, [`agent`] bridges the channels that the server opens to the local agent.
//! [`pump`] passes on what either end reads from its socket, and [`message`] holds what the ends
//! tell each other. The modules whose names end in `_laws` state what holds across calls.

pub mod agent;
pub mod agent_laws;
pub mod client;
pub mod client_laws;
pub mod client_map;
pub mod listener;
pub mod message;
pub mod message_laws;
pub mod pick;
pub mod pick_laws;
pub mod proxy;
pub mod proxy_laws;
pub mod pump;
pub mod pump_laws;
pub mod socket_path;
pub mod timestamp;
pub mod timestamp_laws;
