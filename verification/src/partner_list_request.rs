//! The request for a range of a peer's partner-list bytes.
//!
//! The wanted byte count is not written as a number: the request is padded
//! with that many zero bytes, so that its size on the wire announces the size
//! of the answer.

use crate::node::{extract, reply_view, HandleError, Node, Reply};
use crate::partner_list_response::{PartnerListResponse, PartnerListResponseView};
use crate::packet_type;
use crate::peel::{lemma_u32_le_round_trip, peel_u32, push_u32, push_zero_padding};
use crate::peel::{rest_after, u32_from_le, u32_to_le, zero_padding};
use crate::state::NodeView;
use vstd::prelude::*;

verus! {

/// A request, under `token`, for `requested_len` bytes from `start_index` on.
#[derive(Debug, Clone, Copy, PartialEq, Eq, Structural)]
pub struct PartnerListRequest {
    pub token: u32,
    pub start_index: u32,
    pub requested_len: usize,
}

impl PartnerListRequest {
    /// The packet: the tag, the token, the start index, the padding.
    pub open spec fn spec_serialize(self) -> Seq<u8> {
        seq![packet_type::PARTNER_LIST_REQUEST] + u32_to_le(self.token) + u32_to_le(self.start_index) + zero_padding(
            self.requested_len as nat,
        )
    }

    /// What a body, the packet without its tag, stands for.
    pub open spec fn spec_deserialize(body: Seq<u8>) -> Result<PartnerListRequest, HandleError> {
        if body.len() < 8 {
            Err(HandleError::PacketTruncated)
        } else {
            Ok(
                PartnerListRequest {
                    token: u32_from_le(body.subrange(0, 4)),
                    start_index: u32_from_le(body.subrange(4, 8)),
                    requested_len: (body.len() - 8) as usize,
                },
            )
        }
    }

    /// Whether the packet can be built: it can unless it would be longer
    /// than any buffer.
    pub open spec fn fits(self) -> bool {
        9 + self.requested_len <= usize::MAX
    }

    /// Builds the packet, tag included. The request must fit.
    pub fn serialize(&self) -> (bs: Vec<u8>)
        requires
            self.fits(),
        ensures
            bs@ == self.spec_serialize(),
            bs@.len() == 9 + self.requested_len,
    {
        let mut bs: Vec<u8> = Vec::new();
        bs.push(packet_type::PARTNER_LIST_REQUEST);
        push_u32(&mut bs, self.token);
        push_u32(&mut bs, self.start_index);
        push_zero_padding(&mut bs, self.requested_len);
        assert(bs@ =~= self.spec_serialize());
        bs
    }

    /// Reads a body of eight bytes or more; what follows the eighth byte
    /// counts as padding, whatever it holds.
    ///
    /// A shorter body is `PacketTruncated`.
    pub fn deserialize(body: &[u8]) -> (r: Result<PartnerListRequest, HandleError>)
        ensures
            r == Self::spec_deserialize(body@),
            body@.len() < 8 ==> r matches Err(HandleError::PacketTruncated),
    {
        let (token, body1) = peel_u32(body)?;
        let (start_index, body2) = peel_u32(body1)?;
        let requested_len = body2.len();
        assert(body1@.subrange(0, 4) =~= body@.subrange(4, 8));
        Ok(PartnerListRequest { token, start_index, requested_len })
    }

    /// A serialized message, once its tag is taken off, reads back as itself.
    pub proof fn lemma_round_trip(self)
        ensures
            self.spec_serialize()[0] == packet_type::PARTNER_LIST_REQUEST,
            Self::spec_deserialize(rest_after(self.spec_serialize(), 1)) == Ok::<
                PartnerListRequest,
                HandleError,
            >(self),
    {
        let body = rest_after(self.spec_serialize(), 1);
        lemma_u32_le_round_trip(self.token);
        lemma_u32_le_round_trip(self.start_index);
        assert(body.subrange(0, 4) =~= u32_to_le(self.token));
        assert(body.subrange(4, 8) =~= u32_to_le(self.start_index));
    }
}

/// What handling a partner-list request does: `pre` and `post` are the
/// node's state before and after, `reply` is what the handler hands back.
///
/// A body that does not read as a request changes nothing. For a request
/// the partner list is written anew, and the answer carries, under the
/// request's token, the range that was asked for, as far as the list holds
/// it.
pub open spec fn partner_list_request_handled(
    pre: NodeView,
    body: Seq<u8>,
    post: NodeView,
    reply: Result<Option<Seq<u8>>, HandleError>,
) -> bool {
    match PartnerListRequest::spec_deserialize(body) {
        Err(e) => reply == Err::<Option<Seq<u8>>, HandleError>(e) && post == pre,
        Ok(m) => {
            &&& post == pre.with_fresh_partner_list()
            &&& reply == Ok::<Option<Seq<u8>>, HandleError>(
                Some(
                    (PartnerListResponseView {
                        token: m.token,
                        slice: extract(
                            post.partner_list,
                            m.start_index as int,
                            m.requested_len as int,
                        ),
                    }).spec_serialize(),
                ),
            )
        },
    }
}

/// Handles the body of a partner-list request that a peer sent.
pub fn handle_partner_list_request(node: &mut Node, body: &[u8]) -> (r: Result<Reply, HandleError>)
    requires
        old(node).wf(),
    ensures
        final(node).wf(),
        partner_list_request_handled(old(node)@, body@, final(node)@, reply_view(r)),
{
    let partner_list_request = PartnerListRequest::deserialize(body)?;
    let slice = node.extract_partner_list_slice(
        partner_list_request.start_index,
        partner_list_request.requested_len,
    );
    let response = PartnerListResponse { token: partner_list_request.token, slice }.serialize();
    Ok(Some(response))
}

} // verus!
