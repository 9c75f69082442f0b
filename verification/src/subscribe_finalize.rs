//! The message with which a proposer completes the handshake.
//!
//! It echoes the nonce of the acceptance it answers.

use crate::node::{HandleError, Node, Reply};
use crate::node::reply_view;
use crate::packet_type;
use crate::peel::{lemma_u32_le_round_trip, peel_end, peel_u32, push_u32};
use crate::peel::{rest_after, u32_from_le, u32_to_le};
use crate::state::NodeView;
use vstd::prelude::*;

verus! {

/// The proposer's confirmation of the partnership `partnering_id`, with the
/// nonce it was given in the acceptance.
#[derive(Debug, Clone, Copy, PartialEq, Eq, Structural)]
pub struct SubscribeFinalize {
    pub partnering_id: u32,
    pub confirmation_nonce: u32,
}

impl SubscribeFinalize {
    /// The packet: the tag, the partnering id, the confirmation nonce.
    pub open spec fn spec_serialize(self) -> Seq<u8> {
        seq![packet_type::SUBSCRIBE_FINALIZE] + u32_to_le(self.partnering_id) + u32_to_le(self.confirmation_nonce)
    }

    /// What a body, the packet without its tag, stands for.
    pub open spec fn spec_deserialize(body: Seq<u8>) -> Result<SubscribeFinalize, HandleError> {
        if body.len() < 8 {
            Err(HandleError::PacketTruncated)
        } else if body.len() > 8 {
            Err(HandleError::PacketContinuedUnexpectedly)
        } else {
            Ok(
                SubscribeFinalize {
                    partnering_id: u32_from_le(body.subrange(0, 4)),
                    confirmation_nonce: u32_from_le(body.subrange(4, 8)),
                },
            )
        }
    }

    /// Builds the packet, tag included.
    pub fn serialize(&self) -> (bs: Vec<u8>)
        ensures
            bs@ == self.spec_serialize(),
            bs@.len() == 9,
    {
        let mut bs: Vec<u8> = Vec::with_capacity(9);
        bs.push(packet_type::SUBSCRIBE_FINALIZE);
        push_u32(&mut bs, self.partnering_id);
        push_u32(&mut bs, self.confirmation_nonce);
        assert(bs@ =~= self.spec_serialize());
        bs
    }

    /// Reads a body of exactly eight bytes.
    ///
    /// A shorter body is `PacketTruncated`, a longer one
    /// `PacketContinuedUnexpectedly`.
    pub fn deserialize(body: &[u8]) -> (r: Result<SubscribeFinalize, HandleError>)
        ensures
            r == Self::spec_deserialize(body@),
            body@.len() < 8 ==> r matches Err(HandleError::PacketTruncated),
            body@.len() > 8 ==> r matches Err(HandleError::PacketContinuedUnexpectedly),
    {
        let (partnering_id, body1) = peel_u32(body)?;
        let (confirmation_nonce, body2) = peel_u32(body1)?;
        peel_end(body2)?;
        assert(body1@.subrange(0, 4) =~= body@.subrange(4, 8));
        Ok(SubscribeFinalize { partnering_id, confirmation_nonce })
    }

    /// A serialized message, once its tag is taken off, reads back as itself.
    pub proof fn lemma_round_trip(self)
        ensures
            self.spec_serialize()[0] == packet_type::SUBSCRIBE_FINALIZE,
            Self::spec_deserialize(rest_after(self.spec_serialize(), 1)) == Ok::<
                SubscribeFinalize,
                HandleError,
            >(self),
    {
        let body = rest_after(self.spec_serialize(), 1);
        lemma_u32_le_round_trip(self.partnering_id);
        lemma_u32_le_round_trip(self.confirmation_nonce);
        assert(body.subrange(0, 4) =~= u32_to_le(self.partnering_id));
        assert(body.subrange(4, 8) =~= u32_to_le(self.confirmation_nonce));
    }
}

/// What handling a confirmation does: `pre` and `post` are the node's
/// state before and after, `reply` is what the handler hands back.
///
/// A body that does not read as a confirmation changes nothing. A
/// confirmation that echoes the nonce this node issued for the partnership
/// takes the partnership into use. Any other is passed over: nothing
/// changes, and nothing is reported.
pub open spec fn subscribe_finalize_handled(
    pre: NodeView,
    body: Seq<u8>,
    post: NodeView,
    reply: Result<Option<Seq<u8>>, HandleError>,
) -> bool {
    match SubscribeFinalize::spec_deserialize(body) {
        Err(e) => reply == Err::<Option<Seq<u8>>, HandleError>(e) && post == pre,
        Ok(m) => {
            &&& reply == Ok::<Option<Seq<u8>>, HandleError>(None)
            &&& post == if pre.confirms(m.partnering_id, m.confirmation_nonce) {
                pre.with_confirmed(m.partnering_id)
            } else {
                pre
            }
        },
    }
}

/// Handles the body of a confirmation that a peer sent.
pub fn handle_subscribe_finalize(node: &mut Node, body: &[u8]) -> (r: Result<Reply, HandleError>)
    requires
        old(node).wf(),
    ensures
        final(node).wf(),
        subscribe_finalize_handled(old(node)@, body@, final(node)@, reply_view(r)),
{
    let message = SubscribeFinalize::deserialize(body)?;
    node.confirm_partnership(message.partnering_id, message.confirmation_nonce);
    Ok(None)
}

} // verus!
