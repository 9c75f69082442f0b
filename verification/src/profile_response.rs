//! The answer to a profile request: the token of the request and the bytes
//! that were asked for, as far as the profile holds them.

use crate::node::{reply_view, DataRequestResolution, DataRequestType, HandleError};
use crate::node::{Node, Reply};
use crate::packet_type;
use crate::peel::{lemma_u32_le_round_trip, peel_u32, push_u32};
use crate::peel::{rest_after, u32_from_le, u32_to_le};
use crate::state::NodeView;
use vstd::prelude::*;

verus! {

/// The bytes served for the request made under `token`.
#[derive(Debug, Clone, Copy, PartialEq, Eq)]
pub struct ProfileResponse<'a> {
    pub token: u32,
    pub slice: &'a [u8],
}

/// A response as a value: its token and the bytes it carries.
pub struct ProfileResponseView {
    pub token: u32,
    pub slice: Seq<u8>,
}

impl<'a> View for ProfileResponse<'a> {
    type V = ProfileResponseView;

    open spec fn view(&self) -> ProfileResponseView {
        ProfileResponseView { token: self.token, slice: self.slice@ }
    }
}

impl ProfileResponseView {
    /// The packet: the tag, the token, the bytes.
    pub open spec fn spec_serialize(self) -> Seq<u8> {
        seq![packet_type::PROFILE_RESPONSE] + u32_to_le(self.token) + self.slice
    }

    /// What a body, the packet without its tag, stands for.
    pub open spec fn spec_deserialize(body: Seq<u8>) -> Result<ProfileResponseView, HandleError> {
        if body.len() < 4 {
            Err(HandleError::PacketTruncated)
        } else {
            Ok(
                ProfileResponseView {
                    token: u32_from_le(body.subrange(0, 4)),
                    slice: rest_after(body, 4),
                },
            )
        }
    }

    /// A serialized message, once its tag is taken off, reads back as itself.
    pub proof fn lemma_round_trip(self)
        ensures
            self.spec_serialize()[0] == packet_type::PROFILE_RESPONSE,
            Self::spec_deserialize(rest_after(self.spec_serialize(), 1)) == Ok::<
                ProfileResponseView,
                HandleError,
            >(self),
    {
        let body = rest_after(self.spec_serialize(), 1);
        lemma_u32_le_round_trip(self.token);
        assert(body.subrange(0, 4) =~= u32_to_le(self.token));
        assert(rest_after(body, 4) =~= self.slice);
    }
}

impl<'a> ProfileResponse<'a> {
    /// Builds the packet, tag included.
    pub fn serialize(&self) -> (bs: Vec<u8>)
        ensures
            bs@ == self@.spec_serialize(),
            bs@.len() == 5 + self.slice@.len(),
    {
        let mut bs: Vec<u8> = Vec::new();
        bs.push(packet_type::PROFILE_RESPONSE);
        push_u32(&mut bs, self.token);
        bs.extend_from_slice(self.slice);
        assert(bs@ =~= self@.spec_serialize());
        bs
    }

    /// Reads a body of four bytes or more; what follows the token is the
    /// served range, which may be empty.
    ///
    /// A shorter body is `PacketTruncated`.
    pub fn deserialize(body: &'a [u8]) -> (r: Result<ProfileResponse<'a>, HandleError>)
        ensures
            match r {
                Ok(m) => ProfileResponseView::spec_deserialize(body@) == Ok::<
                    ProfileResponseView,
                    HandleError,
                >(m@),
                Err(e) => ProfileResponseView::spec_deserialize(body@) == Err::<
                    ProfileResponseView,
                    HandleError,
                >(e),
            },
            body@.len() < 4 ==> r matches Err(HandleError::PacketTruncated),
    {
        let (token, slice) = peel_u32(body)?;
        Ok(ProfileResponse { token, slice })
    }
}

/// What handling a profile response does: `pre` and `post` are the node's
/// state before and after, `reply` is what the handler hands back.
///
/// A body that does not read as a response changes nothing. A response
/// whose token names a pending profile request answers that request with
/// the bytes it carries. Any other is passed over: nothing changes, and
/// nothing is reported.
pub open spec fn profile_response_handled(
    pre: NodeView,
    body: Seq<u8>,
    post: NodeView,
    reply: Result<Option<Seq<u8>>, HandleError>,
) -> bool {
    match ProfileResponseView::spec_deserialize(body) {
        Err(e) => reply == Err::<Option<Seq<u8>>, HandleError>(e) && post == pre,
        Ok(m) => {
            &&& reply == Ok::<Option<Seq<u8>>, HandleError>(None)
            &&& post == if pre.awaits(m.token, DataRequestType::Profile) {
                pre.with_answer(m.token, m.slice)
            } else {
                pre
            }
        },
    }
}

/// Handles the body of a profile response that a peer sent.
pub fn handle_profile_response(node: &mut Node, body: &[u8]) -> (r: Result<Reply, HandleError>)
    requires
        old(node).wf(),
    ensures
        final(node).wf(),
        profile_response_handled(old(node)@, body@, final(node)@, reply_view(r)),
{
    let profile_response = ProfileResponse::deserialize(body)?;
    let bytes = vstd::slice::slice_to_vec(profile_response.slice);
    node.resolve_profile_request(profile_response.token, DataRequestResolution { bytes });
    Ok(None)
}

} // verus!
