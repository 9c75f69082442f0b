//! The message that turns a partnership proposal down.
//!
//! A retry delay of zero is not a refusal: it tells the proposer that the
//! partnering id is taken on the other side, and to propose again at once
//! under a fresh id.

use crate::node::{HandleError, Node, PendingPartnershipResolution, Reply};
use crate::node::reply_view;
use crate::packet_type;
use crate::peel::{lemma_u32_le_round_trip, peel_end, peel_u32, push_u32};
use crate::peel::{rest_after, u32_from_le, u32_to_le};
use crate::state::NodeView;
use vstd::prelude::*;

verus! {

/// A refusal of the proposal made under `partnering_id`, with the number of
/// seconds the proposer is asked to wait before it proposes again.
#[derive(Debug, Clone, Copy, PartialEq, Eq, Structural)]
pub struct SubscribeDecline {
    pub partnering_id: u32,
    pub retry_delay_seconds: u32,
}

impl SubscribeDecline {
    /// The packet: the tag, the partnering id, the retry delay.
    pub open spec fn spec_serialize(self) -> Seq<u8> {
        seq![packet_type::SUBSCRIBE_DECLINE] + u32_to_le(self.partnering_id) + u32_to_le(self.retry_delay_seconds)
    }

    /// What a body, the packet without its tag, stands for.
    pub open spec fn spec_deserialize(body: Seq<u8>) -> Result<SubscribeDecline, HandleError> {
        if body.len() < 8 {
            Err(HandleError::PacketTruncated)
        } else if body.len() > 8 {
            Err(HandleError::PacketContinuedUnexpectedly)
        } else {
            Ok(
                SubscribeDecline {
                    partnering_id: u32_from_le(body.subrange(0, 4)),
                    retry_delay_seconds: u32_from_le(body.subrange(4, 8)),
                },
            )
        }
    }

    /// Builds the packet, tag included.
    pub fn serialize(&self) -> (bs: Vec<u8>)
        ensures
            bs@ == self.spec_serialize(),
            bs@.len() == 9,
    {
        let mut bs: Vec<u8> = Vec::with_capacity(9);
        bs.push(packet_type::SUBSCRIBE_DECLINE);
        push_u32(&mut bs, self.partnering_id);
        push_u32(&mut bs, self.retry_delay_seconds);
        assert(bs@ =~= self.spec_serialize());
        bs
    }

    /// Reads a body of exactly eight bytes.
    ///
    /// A shorter body is `PacketTruncated`, a longer one
    /// `PacketContinuedUnexpectedly`.
    pub fn deserialize(body: &[u8]) -> (r: Result<SubscribeDecline, HandleError>)
        ensures
            r == Self::spec_deserialize(body@),
            body@.len() < 8 ==> r matches Err(HandleError::PacketTruncated),
            body@.len() > 8 ==> r matches Err(HandleError::PacketContinuedUnexpectedly),
    {
        let (partnering_id, body1) = peel_u32(body)?;
        let (retry_delay_seconds, body2) = peel_u32(body1)?;
        peel_end(body2)?;
        assert(body1@.subrange(0, 4) =~= body@.subrange(4, 8));
        Ok(SubscribeDecline { partnering_id, retry_delay_seconds })
    }

    /// A serialized message, once its tag is taken off, reads back as itself.
    pub proof fn lemma_round_trip(self)
        ensures
            self.spec_serialize()[0] == packet_type::SUBSCRIBE_DECLINE,
            Self::spec_deserialize(rest_after(self.spec_serialize(), 1)) == Ok::<
                SubscribeDecline,
                HandleError,
            >(self),
    {
        let body = rest_after(self.spec_serialize(), 1);
        lemma_u32_le_round_trip(self.partnering_id);
        lemma_u32_le_round_trip(self.retry_delay_seconds);
        assert(body.subrange(0, 4) =~= u32_to_le(self.partnering_id));
        assert(body.subrange(4, 8) =~= u32_to_le(self.retry_delay_seconds));
    }
}

/// What handling a decline does: `pre` and `post` are the node's state
/// before and after, `reply` is what the handler hands back.
///
/// A body that does not read as a decline changes nothing. A decline for a
/// pending proposal ends that proposal with the delay it carries. A decline
/// for anything else is `DeclinedSubscriptionDoesNotExist`, and changes
/// nothing.
pub open spec fn subscribe_decline_handled(
    pre: NodeView,
    body: Seq<u8>,
    post: NodeView,
    reply: Result<Option<Seq<u8>>, HandleError>,
) -> bool {
    match SubscribeDecline::spec_deserialize(body) {
        Err(e) => reply == Err::<Option<Seq<u8>>, HandleError>(e) && post == pre,
        Ok(m) => if pre.pending.contains_key(m.partnering_id) {
            &&& reply == Ok::<Option<Seq<u8>>, HandleError>(None)
            &&& post == pre.with_outcome(
                m.partnering_id,
                PendingPartnershipResolution::Declined {
                    retry_delay_seconds: m.retry_delay_seconds,
                },
            )
        } else {
            &&& reply == Err::<Option<Seq<u8>>, HandleError>(
                HandleError::DeclinedSubscriptionDoesNotExist,
            )
            &&& post == pre
        },
    }
}

/// Handles the body of a decline that a peer sent.
pub fn handle_subscribe_decline(node: &mut Node, body: &[u8]) -> (r: Result<Reply, HandleError>)
    requires
        old(node).wf(),
    ensures
        final(node).wf(),
        subscribe_decline_handled(old(node)@, body@, final(node)@, reply_view(r)),
{
    let message = SubscribeDecline::deserialize(body)?;
    let reason = PendingPartnershipResolution::Declined {
        retry_delay_seconds: message.retry_delay_seconds,
    };
    match node.remove_pending_partnership_proposal(message.partnering_id, reason) {
        Some(_) => Ok(None),
        None => Err(HandleError::DeclinedSubscriptionDoesNotExist),
    }
}

} // verus!
