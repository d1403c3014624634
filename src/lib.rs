//! Core of a two-player connect-four game played over a public, topic-addressed
//! message bus: the move ledger with its win and draw rules, the rendezvous that
//! assigns roles from a topic's history, and the dispatcher that applies bus
//! events to the replicated game state.

pub mod ledger;
pub mod messages;
pub mod session;
pub mod consistency;
pub mod rendezvous;
pub mod bridge;
pub mod components;
