# agent_forward

Forwards an SSH agent over the connection between a terminal multiplexer's server and its clients.

A process on the server connects to the socket `agent.PID` in the runtime directory. The connection
becomes a channel to the most recently active client that can forward an agent, and the client
bridges the channel to its local agent.

- `src/` decides: which client a connection is bridged to, which channels exist, what a message
  does to a socket, what is sent to the other end. It does no I/O, and Verus proves its contracts.
  The modules whose names end in `_laws` state what holds across calls and in every state.
- `app/` does the I/O: it owns the sockets, threads and locks, and performs what `src/` decides.
- `tests/` runs the library on concrete values.

What is believed without proof about other code is kept in two small functions:
`timestamp::add_milliseconds` and `client::str_contains`.
