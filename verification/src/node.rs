//! The node: every partnership it knows, every request it waits on, and the
//! bytes it serves.
//!
//! All that changes this state goes through `Node`'s methods, each of which
//! keeps `Node::wf`. Nothing here waits on the network: a method that has
//! something to send hands the packet back to its caller.

use crate::free_number::{is_first_free_from, lemma_free_number_exists, steps_after};
use crate::free_number::{lemma_search_found_first, lemma_search_goes_on};
use crate::notifier::{notify, open_channel};
use crate::packet_type;
use crate::partner_list::{build_partner_list, partnership_views};
use crate::partner_list_request::{handle_partner_list_request, partner_list_request_handled};
use crate::partner_list_request::PartnerListRequest;
use crate::partner_list_response::{handle_partner_list_response, partner_list_response_handled};
use crate::profile_request::{handle_profile_request, profile_request_handled, ProfileRequest};
use crate::profile_response::{handle_profile_response, profile_response_handled};
use crate::subscribe::{handle_subscribe, subscribe_handled};
use crate::subscribe_accept::{handle_subscribe_accept, subscribe_accept_handled};
use crate::subscribe_decline::{handle_subscribe_decline, subscribe_decline_handled};
use crate::subscribe_finalize::{handle_subscribe_finalize, subscribe_finalize_handled};
use crate::subscribe::{Subscribe, SubscribeView};
use crate::random::{draw_key, draw_u32};
use crate::state::{lemma_times_under_push, times_under, NodeView};
use rand::rngs::StdRng;
use std::collections::BTreeMap;
use std::collections::HashMap;
use std::collections::HashSet;
use std::sync::mpsc::Receiver;
use std::sync::mpsc::Sender;
use vstd::prelude::*;
use vstd::std_specs::btree::*;
use vstd::std_specs::hash::*;
use vstd::utf8::encode_utf8;

verus! {

/// How a partnership proposal ended.
#[derive(Debug, Clone, Copy, PartialEq, Eq, Structural)]
pub enum PendingPartnershipResolution {
    /// The other side declined; zero seconds means: propose again at once,
    /// under a fresh id.
    Declined { retry_delay_seconds: u32 },
    /// The other side accepted, and issued this confirmation nonce.
    Accepted(u32),
    /// Nobody answered in time.
    Timeout,
}

/// The bytes that answer a data request.
#[derive(Debug, Clone, PartialEq, Eq)]
pub struct DataRequestResolution {
    pub bytes: Vec<u8>,
}

/// What a data request asks for.
#[derive(Debug, Clone, Copy, PartialEq, Eq, Structural)]
pub enum DataRequestType {
    Profile,
    PartnerList,
}

/// How a peer can be reached: a string that is resolved to a network
/// endpoint only when there is something to send.
pub type Addressable = String;

/// A network endpoint: an IP address, as the number its bytes spell in
/// network order, with its port.
#[derive(Debug, Clone, Copy, PartialEq, Eq, Structural)]
pub enum Endpoint {
    V4 { ip4: u32, port4: u16 },
    V6 { ip6: u128, port6: u16, flowinfo: u32, scope_id: u32 },
}

/// A relationship with a peer, named by `id` and secured by `key`.
#[derive(Debug, Clone, PartialEq, Eq)]
pub struct Partnership {
    pub address: Addressable,
    pub resolved_address: Option<Endpoint>,
    pub key: [u8; 32],
    pub id: u32,
}

/// A partnership as a value.
pub struct PartnershipView {
    pub address: Seq<char>,
    pub resolved_address: Option<Endpoint>,
    pub key: Seq<u8>,
    pub id: u32,
}

impl View for Partnership {
    type V = PartnershipView;

    open spec fn view(&self) -> PartnershipView {
        PartnershipView {
            address: self.address@,
            resolved_address: self.resolved_address,
            key: self.key@,
            id: self.id,
        }
    }
}

/// Why an inbound packet was dropped.
#[derive(Debug, Clone, Copy, PartialEq, Eq, Structural)]
pub enum HandleError {
    /// The packet was empty, so it had no type tag.
    MissingPacketType,
    /// The type tag names no known packet type.
    InvalidPacketType,
    /// The body ended before a fixed-width field was complete.
    PacketTruncated,
    /// Bytes were left over after the last field of a fixed-length message.
    PacketContinuedUnexpectedly,
    /// A decline or an accept named a partnering id with no pending proposal.
    DeclinedSubscriptionDoesNotExist,
}

/// What a handler hands back: the packet to send to the peer that the
/// inbound packet came from, if there is one.
pub type Reply = Option<Vec<u8>>;

/// A handler's result as a value.
pub open spec fn reply_view(r: Result<Reply, HandleError>) -> Result<Option<Seq<u8>>, HandleError> {
    match r {
        Ok(Some(packet)) => Ok(Some(packet@)),
        Ok(None) => Ok(None),
        Err(e) => Err(e),
    }
}

/// Splits a packet into its type tag and its body.
///
/// An empty packet is `MissingPacketType`.
pub fn packet_type_and_body(packet: &[u8]) -> (r: Result<(u8, &[u8]), HandleError>)
    ensures
        match r {
            Ok((tag, body)) => {
                &&& packet@.len() > 0
                &&& tag == packet@[0]
                &&& body@ == packet@.subrange(1, packet@.len() as int)
            },
            Err(e) => packet@.len() == 0 && e == HandleError::MissingPacketType,
        },
{
    if packet.len() == 0 {
        return Err(HandleError::MissingPacketType);
    }
    let (first, rest) = packet.split_at(1);
    Ok((first[0], rest))
}

/// The range of `buf` that starts at `start` and has `len` bytes, cut off
/// where `buf` ends; empty when `start` lies beyond the end.
pub open spec fn extract(buf: Seq<u8>, start: int, len: int) -> Seq<u8> {
    if start > buf.len() {
        Seq::empty()
    } else if start + len > buf.len() {
        buf.subrange(start, buf.len() as int)
    } else {
        buf.subrange(start, start + len)
    }
}

/// A range that starts inside the buffer has `len` bytes, or as many as the
/// buffer has left; one that starts beyond it has none.
pub proof fn lemma_extract_len(buf: Seq<u8>, start: int, len: int)
    requires
        0 <= start,
        0 <= len,
    ensures
        start <= buf.len() ==> extract(buf, start, len).len() == vstd::math::min(
            len,
            buf.len() - start,
        ),
        start > buf.len() ==> extract(buf, start, len).len() == 0,
{
}

/// Takes the range of `len` bytes at `start` out of `source`, as far as
/// `source` holds it.
pub fn slice_of(source: &[u8], start: u32, len: usize) -> (r: &[u8])
    ensures
        r@ == extract(source@, start as int, len as int),
        start <= source@.len() ==> r@.len() == vstd::math::min(
            len as int,
            source@.len() - start,
        ),
        start > source@.len() ==> r@.len() == 0,
{
    let start_usize = start as usize;
    if (start_usize as u32) != start {
        return vstd::slice::slice_subrange(source, 0, 0);
    }
    if start_usize > source.len() {
        return vstd::slice::slice_subrange(source, 0, 0);
    }
    let end = match start_usize.checked_add(len) {
        Some(end) => end,
        None => source.len(),
    };
    let end = if source.len() < end {
        source.len()
    } else {
        end
    };
    vstd::slice::slice_subrange(source, start_usize, end)
}

/// The packet that proposes the partnership `p` on behalf of a node that
/// answers to `contact_method`.
pub open spec fn proposal_packet(p: PartnershipView, contact_method: Seq<char>) -> Seq<u8> {
    (SubscribeView {
        partnering_id: p.id,
        key: p.key,
        contact_method: encode_utf8(contact_method),
    }).spec_serialize()
}

/// The partnering ids that are taken are those of the pending, the active
/// and the inactive partnerships, no more and no fewer; and no id is in two
/// of these standings.
pub proof fn lemma_used_ids_are_the_known_ids(node: Node)
    requires
        node.wf(),
    ensures
        node@.used_partnering_ids == node@.pending.dom() + node@.active.dom()
            + node@.inactive.dom(),
        forall|id: u32|
            node@.used_partnering_ids.contains(id) <==> (node@.pending.contains_key(id)
                || node@.active.contains_key(id) || node@.inactive.contains_key(id)),
        forall|id: u32| !(node@.pending.contains_key(id) && node@.active.contains_key(id)),
        forall|id: u32| !(node@.pending.contains_key(id) && node@.inactive.contains_key(id)),
        forall|id: u32| !(node@.active.contains_key(id) && node@.inactive.contains_key(id)),
{
}

/// No proposal has more than one outcome, and no data request more than one
/// answer: under each partnering id the node has handed over at most as
/// many outcomes as it has made proposals, not counting one that is pending
/// still; and so for answers and requests under each token.
pub proof fn lemma_at_most_one_outcome_each(node: Node)
    requires
        node.wf(),
    ensures
        forall|id: u32|
            times_under(node@.outcomes, id) + node@.pending_under(id) <= times_under(
                node@.proposals,
                id,
            ),
        forall|token: u32|
            times_under(node@.answers, token) + node@.awaited_under(token) <= times_under(
                node@.requests,
                token,
            ),
{
    assert forall|id: u32|
        times_under(node@.outcomes, id) + node@.pending_under(id) <= times_under(
            node@.proposals,
            id,
        ) by {
        assert(#[trigger] times_under(node@.outcomes, id) + node@.pending_under(id) <= times_under(
            node@.proposals,
            id,
        ));
    }
    assert forall|token: u32|
        times_under(node@.answers, token) + node@.awaited_under(token) <= times_under(
            node@.requests,
            token,
        ) by {
        assert(#[trigger] times_under(node@.answers, token) + node@.awaited_under(token)
            <= times_under(node@.requests, token));
    }
}

/// A proposal this node has made, with the channel its maker waits on.
struct PendingProposal {
    partnership: Partnership,
    notifier: Sender<PendingPartnershipResolution>,
}

/// A data request this node has made, with the channel its maker waits on.
struct PendingRequest {
    kind: DataRequestType,
    notifier: Sender<DataRequestResolution>,
}

/// The time before which no proposal is to be made to one peer.
struct ProposalDelay {
    addressable: Addressable,
    not_before: u64,
}

/// The deadlines that a list of delays holds: each peer's own, and where a
/// peer occurs twice, the later one.
spec fn deadlines(delays: Seq<ProposalDelay>) -> Map<Seq<char>, u64>
    decreases delays.len(),
{
    if delays.len() == 0 {
        Map::empty()
    } else {
        deadlines(delays.drop_last()).insert(
            delays.last().addressable@,
            delays.last().not_before,
        )
    }
}

/// No peer occurs twice in a list of delays.
spec fn one_delay_each(delays: Seq<ProposalDelay>) -> bool {
    forall|i: int, j: int|
        0 <= i < j < delays.len() ==> delays[i].addressable@ != delays[j].addressable@
}

/// Where each peer has one delay on record, that delay's time is the peer's
/// deadline.
proof fn lemma_deadline_of_delay(delays: Seq<ProposalDelay>, i: int)
    requires
        one_delay_each(delays),
        0 <= i < delays.len(),
    ensures
        deadlines(delays).contains_key(delays[i].addressable@),
        deadlines(delays)[delays[i].addressable@] == delays[i].not_before,
    decreases delays.len(),
{
    if i < delays.len() - 1 {
        let front = delays.drop_last();
        lemma_deadline_of_delay(front, i);
        assert(front[i] == delays[i]);
        assert(delays[delays.len() - 1].addressable@ != delays[i].addressable@);
    }
}

/// A peer for which no delay is on record has no deadline.
proof fn lemma_no_delay_no_deadline(delays: Seq<ProposalDelay>, addressable: Seq<char>)
    requires
        forall|i: int| 0 <= i < delays.len() ==> delays[i].addressable@ != addressable,
    ensures
        !deadlines(delays).contains_key(addressable),
    decreases delays.len(),
{
    if delays.len() > 0 {
        let front = delays.drop_last();
        assert forall|i: int| 0 <= i < front.len() implies front[i].addressable@ != addressable by {
            assert(front[i] == delays[i]);
        }
        lemma_no_delay_no_deadline(front, addressable);
        assert(delays[delays.len() - 1].addressable@ != addressable);
    }
}

/// Replacing a peer's delay by another for the same peer replaces its
/// deadline and no other.
proof fn lemma_deadlines_update(delays: Seq<ProposalDelay>, i: int, delay: ProposalDelay)
    requires
        one_delay_each(delays),
        0 <= i < delays.len(),
        delay.addressable@ == delays[i].addressable@,
    ensures
        one_delay_each(delays.update(i, delay)),
        deadlines(delays.update(i, delay)) == deadlines(delays).insert(
            delay.addressable@,
            delay.not_before,
        ),
    decreases delays.len(),
{
    let updated = delays.update(i, delay);
    let front = delays.drop_last();
    if i == delays.len() - 1 {
        assert(updated.drop_last() =~= front);
    } else {
        lemma_deadlines_update(front, i, delay);
        assert(updated.drop_last() =~= front.update(i, delay));
        assert(updated.last() == delays.last());
        assert(delays[delays.len() - 1].addressable@ != delays[i].addressable@);
    }
    assert(deadlines(updated) =~= deadlines(delays).insert(delay.addressable@, delay.not_before));
}

/// What handling a packet does: `pre` and `post` are the node's state before
/// and after, `reply` is what the node hands back.
///
/// An empty packet is `MissingPacketType`. Otherwise the first byte is the
/// type tag and the rest is the body, which goes to the handler that the tag
/// selects. A tag that selects none is `InvalidPacketType`; the tag of data
/// packets is one of these, since data packets are checked and read
/// elsewhere. Neither error changes anything.
pub open spec fn packet_handled(
    pre: NodeView,
    packet: Seq<u8>,
    post: NodeView,
    reply: Result<Option<Seq<u8>>, HandleError>,
) -> bool {
    if packet.len() == 0 {
        reply == Err::<Option<Seq<u8>>, HandleError>(HandleError::MissingPacketType) && post == pre
    } else {
        let tag = packet[0];
        let body = packet.subrange(1, packet.len() as int);
        if tag == packet_type::SUBSCRIBE {
            subscribe_handled(pre, body, post, reply)
        } else if tag == packet_type::SUBSCRIBE_DECLINE {
            subscribe_decline_handled(pre, body, post, reply)
        } else if tag == packet_type::SUBSCRIBE_ACCEPT {
            subscribe_accept_handled(pre, body, post, reply)
        } else if tag == packet_type::SUBSCRIBE_FINALIZE {
            subscribe_finalize_handled(pre, body, post, reply)
        } else if tag == packet_type::PROFILE_REQUEST {
            profile_request_handled(pre, body, post, reply)
        } else if tag == packet_type::PROFILE_RESPONSE {
            profile_response_handled(pre, body, post, reply)
        } else if tag == packet_type::PARTNER_LIST_REQUEST {
            partner_list_request_handled(pre, body, post, reply)
        } else if tag == packet_type::PARTNER_LIST_RESPONSE {
            partner_list_response_handled(pre, body, post, reply)
        } else {
            reply == Err::<Option<Seq<u8>>, HandleError>(HandleError::InvalidPacketType) && post
                == pre
        }
    }
}

/// The state of one node. What belongs here is what must be kept together
/// for `wf` to hold, and nothing that waits on the network.
pub struct Node {
    /// Partnerships that we have proposed.
    pending_partnerships: HashMap<u32, PendingProposal>,
    /// Active partnerships are the ones we are talking to.
    active_partnerships: BTreeMap<u32, Partnership>,
    /// Inactive partnerships are taken to be offline for now.
    inactive_partnerships: HashMap<u32, Partnership>,
    /// The partnering ids that are used in any way, kept so that a new one
    /// never collides.
    used_partnering_ids: HashSet<u32>,
    /// The nonces we issued when we accepted, by partnering id.
    issued_nonces: HashMap<u32, u32>,
    profile: Vec<u8>,
    /// The list of partnerships in the format that other nodes expect.
    partner_list: Vec<u8>,
    /// How to reach this node.
    contact_method: String,
    /// Where we were told not to propose again before some time.
    partnership_proposal_not_before: Vec<ProposalDelay>,
    pending_data_requests: HashMap<u32, PendingRequest>,
    rng: StdRng,
    proposals: Ghost<Seq<(u32, PartnershipView)>>,
    outcomes: Ghost<Seq<(u32, PendingPartnershipResolution)>>,
    requests: Ghost<Seq<(u32, DataRequestType)>>,
    answers: Ghost<Seq<(u32, Seq<u8>)>>,
}

impl View for Node {
    type V = NodeView;

    closed spec fn view(&self) -> NodeView {
        NodeView {
            pending: self.pending_partnerships@.map_values(|p: PendingProposal| p.partnership@),
            active: partnership_views(self.active_partnerships@),
            inactive: partnership_views(self.inactive_partnerships@),
            used_partnering_ids: self.used_partnering_ids@,
            issued_nonces: self.issued_nonces@,
            pending_data_requests: self.pending_data_requests@.map_values(
                |r: PendingRequest| r.kind,
            ),
            profile: self.profile@,
            partner_list: self.partner_list@,
            contact_method: self.contact_method@,
            proposal_not_before: deadlines(self.partnership_proposal_not_before@),
            proposals: self.proposals@,
            outcomes: self.outcomes@,
            requests: self.requests@,
            answers: self.answers@,
        }
    }
}

impl Node {
    /// How the state is stored: each peer has at most one delay on record.
    pub closed spec fn stored_well(&self) -> bool {
        one_delay_each(self.partnership_proposal_not_before@)
    }

    /// The node's invariant: every constructor establishes it and every
    /// method keeps it.
    pub open spec fn wf(&self) -> bool {
        self@.consistent() && self.stored_well()
    }

    /// A node that answers to `contact_method` and draws its random numbers
    /// from `rng`.
    pub fn new(contact_method: String, rng: StdRng) -> (node: Node)
        ensures
            node.wf(),
            node@ == NodeView::initial(contact_method@),
    {
        let node = Node {
            pending_partnerships: HashMap::new(),
            used_partnering_ids: HashSet::new(),
            issued_nonces: HashMap::new(),
            profile: Vec::new(),
            partner_list: Vec::new(),
            active_partnerships: BTreeMap::new(),
            inactive_partnerships: HashMap::new(),
            contact_method,
            partnership_proposal_not_before: Vec::new(),
            pending_data_requests: HashMap::new(),
            rng,
            proposals: Ghost(Seq::empty()),
            outcomes: Ghost(Seq::empty()),
            requests: Ghost(Seq::empty()),
            answers: Ghost(Seq::empty()),
        };
        assert(node@ =~= NodeView::initial(contact_method@));
        node
    }

    /// Replaces the profile that this node serves.
    pub fn set_profile(&mut self, profile: Vec<u8>)
        requires
            old(self).wf(),
        ensures
            final(self).wf(),
            final(self)@ == (NodeView { profile: profile@, ..old(self)@ }),
    {
        self.profile = profile;
        assert(self@ =~= (NodeView { profile: profile@, ..old(self)@ }));
    }

    /// The number of partnerships in use.
    pub fn active_partnership_count(&self) -> (n: usize)
        requires
            self.wf(),
        ensures
            n == self@.active.len(),
    {
        broadcast use group_btree_axioms;

        assert(self@.active.dom() =~= self.active_partnerships@.dom());
        self.active_partnerships.len()
    }

    /// Whether a partnership of any standing has the id `partnering_id`.
    pub fn is_partnering_id_used(&self, partnering_id: u32) -> (used: bool)
        requires
            self.wf(),
        ensures
            used == self@.used_partnering_ids.contains(partnering_id),
    {
        broadcast use group_hash_axioms;

        self.used_partnering_ids.contains(&partnering_id)
    }

    /// Whether a proposal is pending under `partnering_id`.
    pub fn has_pending_proposal(&self, partnering_id: u32) -> (pending: bool)
        requires
            self.wf(),
        ensures
            pending == self@.pending.contains_key(partnering_id),
    {
        broadcast use group_hash_axioms;

        self.pending_partnerships.contains_key(&partnering_id)
    }

    /// The established partnership `partnership_id`, whether in use or not.
    pub fn get_partnership(&self, partnership_id: u32) -> (found: Option<&Partnership>)
        requires
            self.wf(),
        ensures
            match found {
                Some(p) => {
                    ||| self@.active.contains_key(partnership_id) && p@
                        == self@.active[partnership_id]
                    ||| self@.inactive.contains_key(partnership_id) && p@
                        == self@.inactive[partnership_id]
                },
                None => !self@.active.contains_key(partnership_id) && !self@.inactive.contains_key(
                    partnership_id,
                ),
            },
    {
        broadcast use group_hash_axioms;
        broadcast use group_btree_axioms;

        match self.active_partnerships.get(&partnership_id) {
            Some(p) => Some(p),
            None => self.inactive_partnerships.get(&partnership_id),
        }
    }

    /// Whether some partnering id is still free.
    pub open spec fn has_free_partnering_id(&self) -> bool {
        exists|free: u32| !self@.used_partnering_ids.contains(free)
    }

    /// Whether some data-request token is still free.
    pub open spec fn has_free_data_request_token(&self) -> bool {
        exists|free: u32| !self@.pending_data_requests.contains_key(free)
    }

    /// Whether some partnering id is still free, so that a proposal can be
    /// made.
    pub fn partnering_id_available(&self) -> (available: bool)
        requires
            self.wf(),
        ensures
            available == self.has_free_partnering_id(),
    {
        broadcast use group_hash_axioms;
        broadcast use group_btree_axioms;

        proof {
            assert(self@.pending.dom() =~= self.pending_partnerships@.dom());
            assert(self@.active.dom() =~= self.active_partnerships@.dom());
            assert(self@.inactive.dom() =~= self.inactive_partnerships@.dom());
            assert(self@.used_partnering_ids.finite());
            lemma_free_number_exists(self@.used_partnering_ids);
        }
        self.used_partnering_ids.len() <= 0xFFFF_FFFF
    }

    /// Whether some data-request token is still free, so that a request can
    /// be made.
    pub fn data_request_token_available(&self) -> (available: bool)
        requires
            self.wf(),
        ensures
            available == self.has_free_data_request_token(),
    {
        broadcast use group_hash_axioms;

        proof {
            assert(self@.pending_data_requests.dom() =~= self.pending_data_requests@.dom());
            lemma_free_number_exists(self@.pending_data_requests.dom());
        }
        self.pending_data_requests.len() <= 0xFFFF_FFFF
    }

    /// The first partnering id at or after `start` that nothing uses.
    pub fn first_unused_partnering_id(&self, start: u32) -> (id: u32)
        requires
            self.wf(),
            self.has_free_partnering_id(),
        ensures
            is_first_free_from(self@.used_partnering_ids, start, id),
    {
        broadcast use group_hash_axioms;

        let ghost taken = self@.used_partnering_ids;
        let ghost mut steps: int = 0;
        let mut candidate = start;
        while self.used_partnering_ids.contains(&candidate)
            invariant
                taken == self@.used_partnering_ids,
                0 <= steps < 0x1_0000_0000,
                candidate == steps_after(start, steps),
                forall|k: int| 0 <= k < steps ==> taken.contains(#[trigger] steps_after(start, k)),
                exists|free: u32| !taken.contains(free),
            decreases 0x1_0000_0000 - steps,
        {
            candidate = if candidate == u32::MAX {
                0
            } else {
                candidate + 1
            };
            proof {
                steps = steps + 1;
                lemma_search_goes_on(taken, start, steps);
            }
        }
        proof {
            lemma_search_found_first(taken, start, steps, candidate);
        }
        candidate
    }

    /// The first token at or after `start` under which no data request is
    /// pending.
    pub fn first_unused_data_request_token(&self, start: u32) -> (token: u32)
        requires
            self.wf(),
            self.has_free_data_request_token(),
        ensures
            is_first_free_from(self@.pending_data_requests.dom(), start, token),
    {
        broadcast use group_hash_axioms;

        let ghost taken = self@.pending_data_requests.dom();
        let ghost mut steps: int = 0;
        let mut candidate = start;
        while self.pending_data_requests.contains_key(&candidate)
            invariant
                taken == self@.pending_data_requests.dom(),
                0 <= steps < 0x1_0000_0000,
                candidate == steps_after(start, steps),
                forall|k: int| 0 <= k < steps ==> taken.contains(#[trigger] steps_after(start, k)),
                exists|free: u32| !taken.contains(free),
            decreases 0x1_0000_0000 - steps,
        {
            candidate = if candidate == u32::MAX {
                0
            } else {
                candidate + 1
            };
            proof {
                steps = steps + 1;
                lemma_search_goes_on(taken, start, steps);
            }
        }
        proof {
            lemma_search_found_first(taken, start, steps, candidate);
        }
        candidate
    }

    fn random_key(&mut self) -> (key: [u8; 32])
        requires
            old(self).wf(),
        ensures
            final(self).wf(),
            final(self)@ == old(self)@,
    {
        draw_key(&mut self.rng)
    }

    fn random_u32(&mut self) -> (x: u32)
        requires
            old(self).wf(),
        ensures
            final(self).wf(),
            final(self)@ == old(self)@,
    {
        draw_u32(&mut self.rng)
    }

    /// A partnering id that nothing uses: the first one at or after a random
    /// number.
    fn unused_partnering_id(&mut self) -> (id: u32)
        requires
            old(self).wf(),
            old(self).has_free_partnering_id(),
        ensures
            final(self).wf(),
            final(self)@ == old(self)@,
            !old(self)@.used_partnering_ids.contains(id),
    {
        let start = self.random_u32();
        self.first_unused_partnering_id(start)
    }

    /// A token under which no data request is pending: the first one at or
    /// after a random number.
    fn unused_data_request_token(&mut self) -> (token: u32)
        requires
            old(self).wf(),
            old(self).has_free_data_request_token(),
        ensures
            final(self).wf(),
            final(self)@ == old(self)@,
            !old(self)@.pending_data_requests.contains_key(token),
    {
        let start = self.random_u32();
        self.first_unused_data_request_token(start)
    }

    /// A partnership with `who` under a fresh key and an id that nothing
    /// uses. The node does not know of it yet.
    fn make_partnership(&mut self, who: Addressable) -> (p: Partnership)
        requires
            old(self).wf(),
            old(self).has_free_partnering_id(),
        ensures
            final(self).wf(),
            final(self)@ == old(self)@,
            p.address == who,
            p.resolved_address is None,
            !old(self)@.used_partnering_ids.contains(p.id),
    {
        let key = self.random_key();
        let id = self.unused_partnering_id();
        Partnership { address: who, resolved_address: None, key, id }
    }

    /// Proposes a partnership to `who`: picks a key and an id that nothing
    /// uses, files the proposal as pending, and hands back the id, the
    /// packet to send and the channel on which the outcome will arrive.
    ///
    /// The node must have a partnering id to spare.
    pub fn create_partnership_proposal(&mut self, who: Addressable) -> (r: (
        u32,
        Vec<u8>,
        Receiver<PendingPartnershipResolution>,
    ))
        requires
            old(self).wf(),
            old(self).has_free_partnering_id(),
        ensures
            final(self).wf(),
            !old(self)@.used_partnering_ids.contains(r.0),
            final(self)@.pending.contains_key(r.0),
            ({
                let p = final(self)@.pending[r.0];
                &&& p.address == who@
                &&& p.resolved_address is None
                &&& p.key.len() == 32
                &&& p.id == r.0
                &&& final(self)@ == old(self)@.with_proposal(p)
                &&& r.1@ == proposal_packet(p, old(self)@.contact_method)
            }),
    {
        broadcast use group_hash_axioms;

        let (sender, receiver) = open_channel();
        let p = self.make_partnership(who);
        let id = p.id;
        let message = Subscribe::new(id, &p.key, self.contact_method.as_str().as_bytes()).serialize();
        self.used_partnering_ids.insert(id);
        self.proposals = Ghost(self.proposals@.push((id, p@)));
        self.pending_partnerships.insert(id, PendingProposal { partnership: p, notifier: sender });
        assert(self@ =~= old(self)@.with_proposal(p@));
        assert forall|other: u32| #[trigger]
            times_under(self@.outcomes, other) + self@.pending_under(other) <= times_under(
                self@.proposals,
                other,
            ) by {
            lemma_times_under_push(old(self)@.proposals, id, p@, other);
            assert(times_under(old(self)@.outcomes, other) + old(self)@.pending_under(other)
                <= times_under(old(self)@.proposals, other));
        }
        (id, message, receiver)
    }

    /// Ends the proposal `partnering_id`: takes it out of the pending
    /// proposals, frees its id, hands `reason` to whoever waits for the
    /// outcome, and gives back the partnership that was proposed.
    ///
    /// Where no such proposal is pending, nothing changes and nothing is
    /// handed over.
    pub fn remove_pending_partnership_proposal(
        &mut self,
        partnering_id: u32,
        reason: PendingPartnershipResolution,
    ) -> (removed: Option<Partnership>)
        requires
            old(self).wf(),
        ensures
            final(self).wf(),
            match removed {
                Some(p) => {
                    &&& old(self)@.pending.contains_key(partnering_id)
                    &&& p@ == old(self)@.pending[partnering_id]
                    &&& final(self)@ == old(self)@.with_outcome(partnering_id, reason)
                },
                None => {
                    &&& !old(self)@.pending.contains_key(partnering_id)
                    &&& final(self)@ == old(self)@
                },
            },
    {
        broadcast use group_hash_axioms;

        match self.pending_partnerships.remove(&partnering_id) {
            Some(proposal) => {
                self.used_partnering_ids.remove(&partnering_id);
                notify(proposal.notifier, reason);
                self.outcomes = Ghost(self.outcomes@.push((partnering_id, reason)));
                assert(self@ =~= old(self)@.with_outcome(partnering_id, reason));
                assert forall|other: u32| #[trigger]
                    times_under(self@.outcomes, other) + self@.pending_under(other)
                        <= times_under(self@.proposals, other) by {
                    lemma_times_under_push(old(self)@.outcomes, partnering_id, reason, other);
                    assert(times_under(old(self)@.outcomes, other) + old(self)@.pending_under(
                        other,
                    ) <= times_under(old(self)@.proposals, other));
                }
                Some(proposal.partnership)
            },
            None => {
                assert(self@ =~= old(self)@);
                None
            },
        }
    }

    /// Takes `partnership` into use, in place of any partnership that was
    /// in use under its id. If it was inactive it no longer is.
    ///
    /// Its id must not be that of a pending proposal: end the proposal
    /// first.
    pub fn add_active_partnership(&mut self, partnership: Partnership)
        requires
            old(self).wf(),
            !old(self)@.pending.contains_key(partnership.id),
        ensures
            final(self).wf(),
            final(self)@ == old(self)@.with_active(partnership@),
    {
        broadcast use group_hash_axioms;
        broadcast use group_btree_axioms;

        let id = partnership.id;
        self.inactive_partnerships.remove(&id);
        self.issued_nonces.remove(&id);
        self.active_partnerships.insert(id, partnership);
        self.used_partnering_ids.insert(id);
        assert(self@ =~= old(self)@.with_active(partnership@));
    }

    /// Files `partnership`, which a peer proposed and this node accepts
    /// under `confirmation_nonce`, as inactive until the peer confirms it.
    ///
    /// Its id must be free.
    pub fn add_unconfirmed_partnership(&mut self, partnership: Partnership, confirmation_nonce: u32)
        requires
            old(self).wf(),
            !old(self)@.used_partnering_ids.contains(partnership.id),
        ensures
            final(self).wf(),
            final(self)@ == old(self)@.with_unconfirmed(partnership@, confirmation_nonce),
    {
        broadcast use group_hash_axioms;

        let id = partnership.id;
        self.inactive_partnerships.insert(id, partnership);
        self.issued_nonces.insert(id, confirmation_nonce);
        self.used_partnering_ids.insert(id);
        assert(self@ =~= old(self)@.with_unconfirmed(partnership@, confirmation_nonce));
    }

    /// Accepts `partnership`, which a peer proposed: draws a confirmation
    /// nonce, files the partnership as inactive until the peer confirms it,
    /// and hands back the nonce to send.
    ///
    /// Its id must be free.
    pub fn accept_partnership_proposal(&mut self, partnership: Partnership) -> (nonce: u32)
        requires
            old(self).wf(),
            !old(self)@.used_partnering_ids.contains(partnership.id),
        ensures
            final(self).wf(),
            final(self)@ == old(self)@.with_unconfirmed(partnership@, nonce),
    {
        let nonce = self.random_u32();
        self.add_unconfirmed_partnership(partnership, nonce);
        nonce
    }

    /// Takes the partnership `partnering_id` into use if `confirmation_nonce`
    /// is the nonce this node issued for it, and says whether it did.
    ///
    /// With another nonce, or with none on record, nothing changes.
    pub fn confirm_partnership(&mut self, partnering_id: u32, confirmation_nonce: u32) -> (confirmed:
        bool)
        requires
            old(self).wf(),
        ensures
            final(self).wf(),
            confirmed == old(self)@.confirms(partnering_id, confirmation_nonce),
            final(self)@ == if confirmed {
                old(self)@.with_confirmed(partnering_id)
            } else {
                old(self)@
            },
    {
        broadcast use group_hash_axioms;
        broadcast use group_btree_axioms;

        let issued = match self.issued_nonces.get(&partnering_id) {
            Some(nonce) => *nonce == confirmation_nonce,
            None => false,
        };
        if !issued {
            return false;
        }
        assert(old(self)@.inactive.contains_key(partnering_id));
        match self.inactive_partnerships.remove(&partnering_id) {
            Some(partnership) => {
                self.issued_nonces.remove(&partnering_id);
                self.active_partnerships.insert(partnering_id, partnership);
                assert(self@ =~= old(self)@.with_confirmed(partnering_id));
                true
            },
            None => false,
        }
    }

    /// Files a data request of this kind under a token that no pending
    /// request has, and hands back the token and the channel on which the
    /// answer will arrive.
    fn register_data_request(&mut self, kind: DataRequestType) -> (r: (
        u32,
        Receiver<DataRequestResolution>,
    ))
        requires
            old(self).wf(),
            old(self).has_free_data_request_token(),
        ensures
            final(self).wf(),
            !old(self)@.pending_data_requests.contains_key(r.0),
            final(self)@ == old(self)@.with_request(r.0, kind),
    {
        broadcast use group_hash_axioms;

        let token = self.unused_data_request_token();
        let (sender, receiver) = open_channel();
        self.requests = Ghost(self.requests@.push((token, kind)));
        self.pending_data_requests.insert(token, PendingRequest { kind, notifier: sender });
        assert(self@ =~= old(self)@.with_request(token, kind));
        assert forall|other: u32| #[trigger]
            times_under(self@.answers, other) + self@.awaited_under(other) <= times_under(
                self@.requests,
                other,
            ) by {
            lemma_times_under_push(old(self)@.requests, token, kind, other);
            assert(times_under(old(self)@.answers, other) + old(self)@.awaited_under(other)
                <= times_under(old(self)@.requests, other));
        }
        (token, receiver)
    }

    /// Asks a peer for `len` bytes of its partner list from `start_index`
    /// on: files the request under a token that no pending request has, and
    /// hands back the token, the packet to send and the channel on which the
    /// answer will arrive.
    ///
    /// The node must have a token to spare, and the packet, which is nine
    /// bytes longer than `len`, must fit a buffer.
    pub fn send_partner_list_request(&mut self, start_index: u32, len: usize) -> (r: (
        u32,
        Vec<u8>,
        Receiver<DataRequestResolution>,
    ))
        requires
            old(self).wf(),
            old(self).has_free_data_request_token(),
            9 + len <= usize::MAX,
        ensures
            final(self).wf(),
            !old(self)@.pending_data_requests.contains_key(r.0),
            final(self)@ == old(self)@.with_request(r.0, DataRequestType::PartnerList),
            r.1@ == (PartnerListRequest {
                token: r.0,
                start_index,
                requested_len: len,
            }).spec_serialize(),
    {
        let (token, receiver) = self.register_data_request(DataRequestType::PartnerList);
        let packet = PartnerListRequest { token, start_index, requested_len: len }.serialize();
        (token, packet, receiver)
    }

    /// Asks a peer for `len` bytes of its profile from `start_index` on:
    /// files the request under a token that no pending request has, and
    /// hands back the token, the packet to send and the channel on which the
    /// answer will arrive.
    ///
    /// The node must have a token to spare, and the packet, which is nine
    /// bytes longer than `len`, must fit a buffer.
    pub fn send_profile_request(&mut self, start_index: u32, len: usize) -> (r: (
        u32,
        Vec<u8>,
        Receiver<DataRequestResolution>,
    ))
        requires
            old(self).wf(),
            old(self).has_free_data_request_token(),
            9 + len <= usize::MAX,
        ensures
            final(self).wf(),
            !old(self)@.pending_data_requests.contains_key(r.0),
            final(self)@ == old(self)@.with_request(r.0, DataRequestType::Profile),
            r.1@ == (ProfileRequest { token: r.0, start_index, requested_len: len }).spec_serialize(),
    {
        let (token, receiver) = self.register_data_request(DataRequestType::Profile);
        let packet = ProfileRequest { token, start_index, requested_len: len }.serialize();
        (token, packet, receiver)
    }

    /// Gives up the request `token` if it is of the kind `expected_kind`.
    /// Nothing is handed to whoever waited for it.
    fn cancel_data_request(&mut self, token: u32, expected_kind: DataRequestType)
        requires
            old(self).wf(),
        ensures
            final(self).wf(),
            final(self)@ == if old(self)@.awaits(token, expected_kind) {
                old(self)@.without_request(token)
            } else {
                old(self)@
            },
    {
        broadcast use group_hash_axioms;

        match self.pending_data_requests.get(&token) {
            Some(request) => {
                if request.kind != expected_kind {
                    return ;
                }
            },
            None => {
                return ;
            },
        }
        self.pending_data_requests.remove(&token);
        assert(self@ =~= old(self)@.without_request(token));
        assert forall|other: u32| #[trigger]
            times_under(self@.answers, other) + self@.awaited_under(other) <= times_under(
                self@.requests,
                other,
            ) by {
            assert(times_under(old(self)@.answers, other) + old(self)@.awaited_under(other)
                <= times_under(old(self)@.requests, other));
        }
    }

    /// Gives up the partner-list request `token`. If no partner-list
    /// request is pending under it, nothing changes.
    pub fn cancel_partner_list_request(&mut self, token: u32)
        requires
            old(self).wf(),
        ensures
            final(self).wf(),
            final(self)@ == if old(self)@.awaits(token, DataRequestType::PartnerList) {
                old(self)@.without_request(token)
            } else {
                old(self)@
            },
    {
        self.cancel_data_request(token, DataRequestType::PartnerList)
    }

    /// Gives up the profile request `token`. If no profile request is
    /// pending under it, nothing changes.
    pub fn cancel_profile_request(&mut self, token: u32)
        requires
            old(self).wf(),
        ensures
            final(self).wf(),
            final(self)@ == if old(self)@.awaits(token, DataRequestType::Profile) {
                old(self)@.without_request(token)
            } else {
                old(self)@
            },
    {
        self.cancel_data_request(token, DataRequestType::Profile)
    }

    /// Answers the request `token` with `data` if it is of the kind `kind`:
    /// the request is taken out and the data handed to whoever waits for it.
    /// A request of the other kind stays as it is.
    fn resolve_data_request(&mut self, token: u32, data: DataRequestResolution, kind: DataRequestType)
        requires
            old(self).wf(),
        ensures
            final(self).wf(),
            final(self)@ == if old(self)@.awaits(token, kind) {
                old(self)@.with_answer(token, data.bytes@)
            } else {
                old(self)@
            },
    {
        broadcast use group_hash_axioms;

        match self.pending_data_requests.remove(&token) {
            Some(found) => {
                if kind != found.kind {
                    // Put it back: the answer is for another request.
                    self.pending_data_requests.insert(token, found);
                    assert(self@ =~= old(self)@);
                } else {
                    self.answers = Ghost(self.answers@.push((token, data.bytes@)));
                    notify(found.notifier, data);
                    assert(self@ =~= old(self)@.with_answer(token, data.bytes@));
                    assert forall|other: u32| #[trigger]
                        times_under(self@.answers, other) + self@.awaited_under(other)
                            <= times_under(self@.requests, other) by {
                        lemma_times_under_push(old(self)@.answers, token, data.bytes@, other);
                        assert(times_under(old(self)@.answers, other) + old(self)@.awaited_under(
                            other,
                        ) <= times_under(old(self)@.requests, other));
                    }
                }
            },
            None => {
                assert(self@ =~= old(self)@);
            },
        }
    }

    /// Answers the profile request `token` with `data`. If no profile
    /// request is pending under it, nothing changes and nothing is handed
    /// over.
    pub fn resolve_profile_request(&mut self, token: u32, data: DataRequestResolution)
        requires
            old(self).wf(),
        ensures
            final(self).wf(),
            final(self)@ == if old(self)@.awaits(token, DataRequestType::Profile) {
                old(self)@.with_answer(token, data.bytes@)
            } else {
                old(self)@
            },
    {
        self.resolve_data_request(token, data, DataRequestType::Profile)
    }

    /// Answers the partner-list request `token` with `data`. If no
    /// partner-list request is pending under it, nothing changes and nothing
    /// is handed over.
    pub fn resolve_partner_list_request(&mut self, token: u32, data: DataRequestResolution)
        requires
            old(self).wf(),
        ensures
            final(self).wf(),
            final(self)@ == if old(self)@.awaits(token, DataRequestType::PartnerList) {
                old(self)@.with_answer(token, data.bytes@)
            } else {
                old(self)@
            },
    {
        self.resolve_data_request(token, data, DataRequestType::PartnerList)
    }

    /// Where the delay for `addressable` is on record, if anywhere.
    fn find_delay(&self, addressable: &Addressable) -> (found: Option<usize>)
        ensures
            match found {
                Some(i) => i < self.partnership_proposal_not_before@.len()
                    && self.partnership_proposal_not_before@[i as int].addressable@
                    == addressable@,
                None => forall|i: int|
                    0 <= i < self.partnership_proposal_not_before@.len()
                        ==> self.partnership_proposal_not_before@[i].addressable@ != addressable@,
            },
    {
        let mut i: usize = 0;
        while i < self.partnership_proposal_not_before.len()
            invariant
                i <= self.partnership_proposal_not_before@.len(),
                forall|j: int|
                    0 <= j < i ==> self.partnership_proposal_not_before@[j].addressable@
                        != addressable@,
            decreases self.partnership_proposal_not_before@.len() - i,
        {
            if self.partnership_proposal_not_before[i].addressable == *addressable {
                return Some(i);
            }
            i = i + 1;
        }
        None
    }

    /// Puts on record that no proposal is to go to `addressable` before the
    /// time `when`, in place of what was on record for it.
    pub fn delay_partnership_proposal_until(&mut self, addressable: Addressable, when: u64)
        requires
            old(self).wf(),
        ensures
            final(self).wf(),
            final(self)@ == old(self)@.with_delay(addressable@, when),
    {
        let ghost before = self.partnership_proposal_not_before@;
        let delay = ProposalDelay { addressable, not_before: when };
        match self.find_delay(&delay.addressable) {
            Some(i) => {
                proof {
                    lemma_deadlines_update(before, i as int, delay);
                }
                self.partnership_proposal_not_before.set(i, delay);
            },
            None => {
                self.partnership_proposal_not_before.push(delay);
                assert(self.partnership_proposal_not_before@.drop_last() =~= before);
            },
        }
        assert(self@ =~= old(self)@.with_delay(addressable@, when));
    }

    /// Whether a proposal may go to `addressable` at the time `now`: none
    /// may before the time that is on record for it.
    pub fn may_propose_to(&self, addressable: &Addressable, now: u64) -> (allowed: bool)
        requires
            self.wf(),
        ensures
            allowed == self@.may_propose_to(addressable@, now),
    {
        match self.find_delay(addressable) {
            Some(i) => {
                proof {
                    lemma_deadline_of_delay(self.partnership_proposal_not_before@, i as int);
                }
                self.partnership_proposal_not_before[i].not_before <= now
            },
            None => {
                proof {
                    lemma_no_delay_no_deadline(self.partnership_proposal_not_before@, addressable@);
                }
                true
            },
        }
    }

    /// Writes the partner list anew from the contact method and the
    /// partnerships now in use.
    pub fn update_partner_list(&mut self)
        requires
            old(self).wf(),
        ensures
            final(self).wf(),
            final(self)@ == old(self)@.with_fresh_partner_list(),
    {
        self.partner_list = build_partner_list(
            self.contact_method.as_str(),
            &self.active_partnerships,
        );
        assert(self@ =~= old(self)@.with_fresh_partner_list());
    }

    /// The range of `len` bytes at `start` of the partner list, as far as
    /// the list holds it. The list is written anew first, so that what is
    /// served never falls behind the partnerships in use.
    pub fn extract_partner_list_slice(&mut self, start: u32, len: usize) -> (r: &[u8])
        requires
            old(self).wf(),
        ensures
            final(self).wf(),
            final(self)@ == old(self)@.with_fresh_partner_list(),
            r@ == extract(final(self)@.partner_list, start as int, len as int),
    {
        self.update_partner_list();
        slice_of(self.partner_list.as_slice(), start, len)
    }

    /// Handles a packet that arrived: the first byte selects the handler,
    /// the handler reads the rest. Hands back the packet to send to where
    /// this one came from, if there is one.
    pub fn handle_received_packet(&mut self, packet: &[u8]) -> (r: Result<Reply, HandleError>)
        requires
            old(self).wf(),
        ensures
            final(self).wf(),
            packet_handled(old(self)@, packet@, final(self)@, reply_view(r)),
    {
        let (tag, body) = packet_type_and_body(packet)?;
        if tag == packet_type::SUBSCRIBE {
            handle_subscribe(self, body)
        } else if tag == packet_type::SUBSCRIBE_DECLINE {
            handle_subscribe_decline(self, body)
        } else if tag == packet_type::SUBSCRIBE_ACCEPT {
            handle_subscribe_accept(self, body)
        } else if tag == packet_type::SUBSCRIBE_FINALIZE {
            handle_subscribe_finalize(self, body)
        } else if tag == packet_type::PROFILE_REQUEST {
            handle_profile_request(self, body)
        } else if tag == packet_type::PROFILE_RESPONSE {
            handle_profile_response(self, body)
        } else if tag == packet_type::PARTNER_LIST_REQUEST {
            handle_partner_list_request(self, body)
        } else if tag == packet_type::PARTNER_LIST_RESPONSE {
            handle_partner_list_response(self, body)
        } else {
            Err(HandleError::InvalidPacketType)
        }
    }

    /// The range of `len` bytes at `start` of the profile, as far as the
    /// profile holds it.
    pub fn extract_profile_slice(&mut self, start: u32, len: usize) -> (r: &[u8])
        requires
            old(self).wf(),
        ensures
            final(self).wf(),
            final(self)@ == old(self)@,
            r@ == extract(old(self)@.profile, start as int, len as int),
    {
        slice_of(self.profile.as_slice(), start, len)
    }
}

} // verus!
