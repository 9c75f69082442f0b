//! The message that takes a partnership proposal up.
//!
//! It carries a nonce that the proposer must send back unchanged to
//! complete the handshake.

use crate::node::{HandleError, Node, PendingPartnershipResolution, Reply};
use crate::node::reply_view;
use crate::packet_type;
use crate::peel::{lemma_u32_le_round_trip, peel_end, peel_u32, push_u32};
use crate::peel::{rest_after, u32_from_le, u32_to_le};
use crate::state::NodeView;
use vstd::prelude::*;

verus! {

/// An acceptance of the proposal made under `partnering_id`, with the nonce
/// that the acceptor issued for it.
#[derive(Debug, Clone, Copy, PartialEq, Eq, Structural)]
pub struct SubscribeAccept {
    pub partnering_id: u32,
    pub confirmation_nonce: u32,
}

impl SubscribeAccept {
    /// The packet: the tag, the partnering id, the confirmation nonce.
    pub open spec fn spec_serialize(self) -> Seq<u8> {
        seq![packet_type::SUBSCRIBE_ACCEPT] + u32_to_le(self.partnering_id) + u32_to_le(self.confirmation_nonce)
    }

    /// What a body, the packet without its tag, stands for.
    pub open spec fn spec_deserialize(body: Seq<u8>) -> Result<SubscribeAccept, HandleError> {
        if body.len() < 8 {
            Err(HandleError::PacketTruncated)
        } else if body.len() > 8 {
            Err(HandleError::PacketContinuedUnexpectedly)
        } else {
            Ok(
                SubscribeAccept {
                    partnering_id: u32_from_le(body.subrange(0, 4)),
                    confirmation_nonce: u32_from_le(body.subrange(4, 8)),
                },
            )
        }
    }

    /// Builds the packet, tag included.
    pub fn serialize(&self) -> (bs: Vec<u8>)
        ensures
            bs@ == self.spec_serialize(),
            bs@.len() == 9,
    {
        let mut bs: Vec<u8> = Vec::with_capacity(9);
        bs.push(packet_type::SUBSCRIBE_ACCEPT);
        push_u32(&mut bs, self.partnering_id);
        push_u32(&mut bs, self.confirmation_nonce);
        assert(bs@ =~= self.spec_serialize());
        bs
    }

    /// Reads a body of exactly eight bytes.
    ///
    /// A shorter body is `PacketTruncated`, a longer one
    /// `PacketContinuedUnexpectedly`.
    pub fn deserialize(body: &[u8]) -> (r: Result<SubscribeAccept, HandleError>)
        ensures
            r == Self::spec_deserialize(body@),
            body@.len() < 8 ==> r matches Err(HandleError::PacketTruncated),
            body@.len() > 8 ==> r matches Err(HandleError::PacketContinuedUnexpectedly),
    {
        let (partnering_id, body1) = peel_u32(body)?;
        let (confirmation_nonce, body2) = peel_u32(body1)?;
        peel_end(body2)?;
        assert(body1@.subrange(0, 4) =~= body@.subrange(4, 8));
        Ok(SubscribeAccept { partnering_id, confirmation_nonce })
    }

    /// A serialized message, once its tag is taken off, reads back as itself.
    pub proof fn lemma_round_trip(self)
        ensures
            self.spec_serialize()[0] == packet_type::SUBSCRIBE_ACCEPT,
            Self::spec_deserialize(rest_after(self.spec_serialize(), 1)) == Ok::<
                SubscribeAccept,
                HandleError,
            >(self),
    {
        let body = rest_after(self.spec_serialize(), 1);
        lemma_u32_le_round_trip(self.partnering_id);
        lemma_u32_le_round_trip(self.confirmation_nonce);
        assert(body.subrange(0, 4) =~= u32_to_le(self.partnering_id));
        assert(body.subrange(4, 8) =~= u32_to_le(self.confirmation_nonce));
    }
}

/// What handling an acceptance does: `pre` and `post` are the node's state
/// before and after, `reply` is what the handler hands back.
///
/// A body that does not read as an acceptance changes nothing. An
/// acceptance of a pending proposal ends that proposal with the nonce it
/// carries, and takes the partnership into use. An acceptance of anything
/// else is `DeclinedSubscriptionDoesNotExist`, and changes nothing.
pub open spec fn subscribe_accept_handled(
    pre: NodeView,
    body: Seq<u8>,
    post: NodeView,
    reply: Result<Option<Seq<u8>>, HandleError>,
) -> bool {
    match SubscribeAccept::spec_deserialize(body) {
        Err(e) => reply == Err::<Option<Seq<u8>>, HandleError>(e) && post == pre,
        Ok(m) => if pre.pending.contains_key(m.partnering_id) {
            &&& reply == Ok::<Option<Seq<u8>>, HandleError>(None)
            &&& post == pre.with_outcome(
                m.partnering_id,
                PendingPartnershipResolution::Accepted(m.confirmation_nonce),
            ).with_active(pre.pending[m.partnering_id])
        } else {
            &&& reply == Err::<Option<Seq<u8>>, HandleError>(
                HandleError::DeclinedSubscriptionDoesNotExist,
            )
            &&& post == pre
        },
    }
}

/// Handles the body of an acceptance that a peer sent.
pub fn handle_subscribe_accept(node: &mut Node, body: &[u8]) -> (r: Result<Reply, HandleError>)
    requires
        old(node).wf(),
    ensures
        final(node).wf(),
        subscribe_accept_handled(old(node)@, body@, final(node)@, reply_view(r)),
{
    let message = SubscribeAccept::deserialize(body)?;
    let reason = PendingPartnershipResolution::Accepted(message.confirmation_nonce);
    match node.remove_pending_partnership_proposal(message.partnering_id, reason) {
        Some(accepted) => {
            node.add_active_partnership(accepted);
            Ok(None)
        },
        None => Err(HandleError::DeclinedSubscriptionDoesNotExist),
    }
}

} // verus!
