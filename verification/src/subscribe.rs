//! The message that proposes a partnership.
//!
//! The proposer picks the partnering id and the shared key, and tells the
//! other side how it can be reached.

use crate::node::{Addressable, HandleError, Node, Partnership, PartnershipView, Reply};
use crate::node::reply_view;
use crate::subscribe_accept::SubscribeAccept;
use crate::subscribe_decline::SubscribeDecline;
use vstd::utf8::{encode_utf8, valid_utf8};
use crate::packet_type;
use crate::peel::{lemma_u32_le_round_trip, peel_slice, peel_u32, push_u32};
use crate::peel::{rest_after, u32_from_le, u32_to_le};
use crate::state::NodeView;
use vstd::prelude::*;

verus! {

/// A proposal: the partnering id, the 32-byte key and the proposer's
/// contact method, which runs to the end of the packet.
#[derive(Debug, Clone, Copy, PartialEq, Eq)]
pub struct Subscribe<'a> {
    partnering_id: u32,
    key: &'a [u8],
    contact_method: &'a [u8],
}

/// A proposal as a value.
pub struct SubscribeView {
    pub partnering_id: u32,
    pub key: Seq<u8>,
    pub contact_method: Seq<u8>,
}

impl<'a> View for Subscribe<'a> {
    type V = SubscribeView;

    closed spec fn view(&self) -> SubscribeView {
        SubscribeView {
            partnering_id: self.partnering_id,
            key: self.key@,
            contact_method: self.contact_method@,
        }
    }
}

impl SubscribeView {
    /// A proposal is well formed when its key has 32 bytes.
    pub open spec fn wf(self) -> bool {
        self.key.len() == 32
    }

    /// The packet: the tag, the partnering id, the key, the contact method.
    pub open spec fn spec_serialize(self) -> Seq<u8> {
        seq![packet_type::SUBSCRIBE] + u32_to_le(self.partnering_id) + self.key + self.contact_method
    }

    /// What a body, the packet without its tag, stands for.
    pub open spec fn spec_deserialize(body: Seq<u8>) -> Result<SubscribeView, HandleError> {
        if body.len() < 36 {
            Err(HandleError::PacketTruncated)
        } else {
            Ok(
                SubscribeView {
                    partnering_id: u32_from_le(body.subrange(0, 4)),
                    key: body.subrange(4, 36),
                    contact_method: rest_after(body, 36),
                },
            )
        }
    }

    /// A serialized proposal, once its tag is taken off, reads back as
    /// itself.
    pub proof fn lemma_round_trip(self)
        requires
            self.wf(),
        ensures
            self.spec_serialize()[0] == packet_type::SUBSCRIBE,
            Self::spec_deserialize(rest_after(self.spec_serialize(), 1)) == Ok::<
                SubscribeView,
                HandleError,
            >(self),
    {
        let body = rest_after(self.spec_serialize(), 1);
        lemma_u32_le_round_trip(self.partnering_id);
        assert(body.subrange(0, 4) =~= u32_to_le(self.partnering_id));
        assert(body.subrange(4, 36) =~= self.key);
        assert(rest_after(body, 36) =~= self.contact_method);
    }
}

impl<'a> Subscribe<'a> {
    #[verifier::type_invariant]
    spec fn key_is_whole(self) -> bool {
        self.key@.len() == 32
    }

    pub fn new(partnering_id: u32, key: &'a [u8; 32], contact_method: &'a [u8]) -> (m: Subscribe<
        'a,
    >)
        ensures
            m@ == (SubscribeView { partnering_id, key: key@, contact_method: contact_method@ }),
            m@.wf(),
    {
        Subscribe { partnering_id, key: key.as_slice(), contact_method }
    }

    /// Reads a body of 36 bytes or more; what follows the key is the contact
    /// method, which may be empty.
    ///
    /// A shorter body is `PacketTruncated`.
    pub fn deserialize(body: &'a [u8]) -> (r: Result<Subscribe<'a>, HandleError>)
        ensures
            match r {
                Ok(m) => m@.wf() && SubscribeView::spec_deserialize(body@) == Ok::<
                    SubscribeView,
                    HandleError,
                >(m@),
                Err(e) => SubscribeView::spec_deserialize(body@) == Err::<
                    SubscribeView,
                    HandleError,
                >(e),
            },
            body@.len() < 36 ==> r matches Err(HandleError::PacketTruncated),
    {
        let (partnering_id, body1) = peel_u32(body)?;
        let (key, contact_method) = peel_slice(body1, 32)?;
        assert(key@ =~= body@.subrange(4, 36));
        assert(contact_method@ =~= rest_after(body@, 36));
        Ok(Subscribe { partnering_id, key, contact_method })
    }

    /// Builds the packet, tag included.
    pub fn serialize(&self) -> (bs: Vec<u8>)
        ensures
            bs@ == self@.spec_serialize(),
            bs@.len() == 37 + self@.contact_method.len(),
    {
        proof {
            use_type_invariant(self);
        }
        let mut bs: Vec<u8> = Vec::new();
        bs.push(packet_type::SUBSCRIBE);
        push_u32(&mut bs, self.partnering_id);
        bs.extend_from_slice(self.key);
        bs.extend_from_slice(self.contact_method);
        assert(bs@ =~= self@.spec_serialize());
        bs
    }

    pub fn partnering_id(&self) -> (id: u32)
        ensures
            id == self@.partnering_id,
    {
        self.partnering_id
    }

    pub fn key(&self) -> (key: &'a [u8])
        ensures
            key@ == self@.key,
            key@.len() == 32,
    {
        proof {
            use_type_invariant(self);
        }
        self.key
    }

    pub fn contact_method(&self) -> (contact_method: &'a [u8])
        ensures
            contact_method@ == self@.contact_method,
    {
        self.contact_method
    }
}

/// The string that `String::from_utf8_lossy` makes of `bytes`: the string
/// they spell in UTF-8, with each run that spells nothing replaced by
/// U+FFFD.
pub uninterp spec fn utf8_lossy(bytes: Seq<u8>) -> Seq<char>;

/// Reads an address with `String::from_utf8_lossy`.
///
/// Trusted: the string is a function of the bytes alone, which `utf8_lossy`
/// names; and where the bytes are valid UTF-8, the string's own bytes are
/// those bytes.
#[verifier::external_body]
fn addressable_from_bytes(bytes: &[u8]) -> (addressable: Addressable)
    ensures
        addressable@ == utf8_lossy(bytes@),
        valid_utf8(bytes@) ==> encode_utf8(addressable@) == bytes@,
{
    String::from_utf8_lossy(bytes).into_owned()
}

/// The 32 bytes of `bytes` as an array.
fn key_from_slice(bytes: &[u8]) -> (key: [u8; 32])
    requires
        bytes@.len() == 32,
    ensures
        key@ == bytes@,
{
    let mut key = [0u8; 32];
    let mut i: usize = 0;
    while i < 32
        invariant
            i <= 32,
            bytes@.len() == 32,
            forall|j: int| 0 <= j < i ==> key@[j] == bytes@[j],
        decreases 32 - i,
    {
        key[i] = bytes[i];
        i = i + 1;
    }
    assert(key@ =~= bytes@);
    key
}

/// The partnership that a proposal asks for, as the accepting side files
/// it: the proposer is reached by its contact method, and not resolved yet.
pub open spec fn proposed_partnership(m: SubscribeView) -> PartnershipView {
    PartnershipView {
        address: utf8_lossy(m.contact_method),
        resolved_address: None,
        key: m.key,
        id: m.partnering_id,
    }
}

/// What handling a proposal does: `pre` and `post` are the node's state
/// before and after, `reply` is what the handler hands back.
///
/// A body that does not read as a proposal changes nothing. A proposal
/// under an id that is taken, in whatever standing, is a collision: the
/// answer is a decline with no delay, and nothing changes. Any other
/// proposal is accepted: the partnership is filed as inactive under a nonce,
/// and the answer is the acceptance that carries that nonce.
pub open spec fn subscribe_handled(
    pre: NodeView,
    body: Seq<u8>,
    post: NodeView,
    reply: Result<Option<Seq<u8>>, HandleError>,
) -> bool {
    match SubscribeView::spec_deserialize(body) {
        Err(e) => reply == Err::<Option<Seq<u8>>, HandleError>(e) && post == pre,
        Ok(m) => if pre.used_partnering_ids.contains(m.partnering_id) {
            &&& post == pre
            &&& reply == Ok::<Option<Seq<u8>>, HandleError>(
                Some(
                    (SubscribeDecline {
                        partnering_id: m.partnering_id,
                        retry_delay_seconds: 0,
                    }).spec_serialize(),
                ),
            )
        } else {
            let nonce = post.issued_nonces[m.partnering_id];
            &&& post == pre.with_unconfirmed(proposed_partnership(m), nonce)
            &&& reply == Ok::<Option<Seq<u8>>, HandleError>(
                Some(
                    (SubscribeAccept {
                        partnering_id: m.partnering_id,
                        confirmation_nonce: nonce,
                    }).spec_serialize(),
                ),
            )
        },
    }
}

/// Handles the body of a proposal that a peer sent.
pub fn handle_subscribe(node: &mut Node, body: &[u8]) -> (r: Result<Reply, HandleError>)
    requires
        old(node).wf(),
    ensures
        final(node).wf(),
        subscribe_handled(old(node)@, body@, final(node)@, reply_view(r)),
{
    let message = Subscribe::deserialize(body)?;
    let partnering_id = message.partnering_id();
    if node.is_partnering_id_used(partnering_id) {
        // The id is taken here. Most likely two nodes drew the same number.
        // A decline with no delay asks the proposer to draw another.
        let decline = SubscribeDecline { partnering_id, retry_delay_seconds: 0 };
        return Ok(Some(decline.serialize()));
    }
    let partnership = Partnership {
        address: addressable_from_bytes(message.contact_method()),
        resolved_address: None,
        key: key_from_slice(message.key()),
        id: partnering_id,
    };
    let confirmation_nonce = node.accept_partnership_proposal(partnership);
    let accept = SubscribeAccept { partnering_id, confirmation_nonce };
    Ok(Some(accept.serialize()))
}

} // verus!
