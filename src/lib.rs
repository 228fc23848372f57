//! The per-connection core of a message-bus broker: connection handshake,
//! name resolution, match-rule bookkeeping and the routing predicate that
//! decides whether a connection wants a given message.

pub mod bus;
pub mod flags;
pub mod laws;
pub mod message;
pub mod names;
pub mod owners;
pub mod peer;
pub mod rule;
