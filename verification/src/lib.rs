//! Channel teleport: moving a live payment channel onto a new funding output.
//!
//! A teleport replaces the funding output of an open two-party channel without closing it. The
//! peers quiesce the channel, agree on the new outpoint, exchange commitments on the new funding
//! scope and then promote that scope, the responder first and the initiator second. The
//! commitment-number sequence of the channel continues across the promotion.

pub mod balance_laws;
pub mod channel;
pub mod claims;
pub mod commitment;
pub mod commitment_handlers;
pub mod commitment_laws;
pub mod commitment_tx;
pub mod entry;
pub mod events;
pub mod flows;
pub mod funding;
pub mod htlc_script;
pub mod htlcs;
pub mod laws;
pub mod link_handlers;
pub mod monitor;
pub mod msgs;
pub mod node;
pub mod node_laws;
pub mod outpoint;
pub mod pair;
pub mod passage_laws;
pub mod payment_handlers;
pub mod payment_laws;
pub mod queue_laws;
pub mod removal_laws;
pub mod script;
pub mod script_laws;
pub mod settlement_laws;
pub mod stage_laws;
pub mod teleport;
pub mod teleport_handlers;
pub mod watch_laws;
