//! A peer-to-peer node that forms partnerships with other nodes and trades
//! ranged reads of profile and partner-list bytes with them.
//!
//! The crate holds the packet codec, the per-recipient authenticated framer,
//! the node's partnership and request state, the handshake handlers and the
//! decisions of the partner-seeking loop. Sockets, clocks and threads stay
//! with the caller: handlers take the bytes that arrived and hand back the
//! bytes to send.
//!
//! - `peel`, `packet_type` and one module for each message: the codec.
//! - `data`: data packets, authenticated for each recipient.
//! - `node`, with `state`, `free_number` and `partner_list`: the node, its
//!   state as a value, and the laws that hold of it.
//! - `seek`: what the partner-seeking loop does after each attempt.
//! - `notifier` and `random`: the channels and the random numbers that the
//!   node takes from outside, with nothing proved of them.

pub mod data;
pub mod free_number;
pub mod node;
pub mod notifier;
pub mod packet_type;
pub mod partner_list;
pub mod partner_list_request;
pub mod partner_list_response;
pub mod peel;
pub mod profile_request;
pub mod profile_response;
pub mod random;
pub mod seek;
pub mod state;
pub mod subscribe;
pub mod subscribe_accept;
pub mod subscribe_decline;
pub mod subscribe_finalize;
