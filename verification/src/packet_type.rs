//! The type tags. The first byte of every packet says what the packet is;
//! the serializers write these tags and the node selects its handlers by
//! them.

use vstd::prelude::*;

verus! {

/// A partnership proposal.
pub const SUBSCRIBE: u8 = 0;

/// A refusal of a proposal, or the request to propose again under a fresh
/// id.
pub const SUBSCRIBE_DECLINE: u8 = 1;

/// An acceptance of a proposal.
pub const SUBSCRIBE_ACCEPT: u8 = 2;

/// The proposer's confirmation of an accepted partnership.
pub const SUBSCRIBE_FINALIZE: u8 = 4;

/// An authenticated data packet.
pub const DATA: u8 = 5;

/// A request for a range of profile bytes.
pub const PROFILE_REQUEST: u8 = 8;

/// The answer to a profile request.
pub const PROFILE_RESPONSE: u8 = 9;

/// A request for a range of partner-list bytes.
pub const PARTNER_LIST_REQUEST: u8 = 10;

/// The answer to a partner-list request.
pub const PARTNER_LIST_RESPONSE: u8 = 11;

} // verus!
