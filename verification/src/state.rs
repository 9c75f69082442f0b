//! The node's state as a value, and what each change makes of it.
//!
//! The contracts of `Node`'s methods and of the handlers are written over
//! these values: each says which of the changes below has taken place.

use crate::node::{DataRequestType, PartnershipView, PendingPartnershipResolution};
use crate::partner_list::partner_list_bytes;
use vstd::prelude::*;

verus! {

/// How often a record was made under `key` in a log of records, each of
/// which stands with the key it was made under.
pub open spec fn times_under<T>(log: Seq<(u32, T)>, key: u32) -> nat
    decreases log.len(),
{
    if log.len() == 0 {
        0
    } else if log.last().0 == key {
        times_under(log.drop_last(), key) + 1
    } else {
        times_under(log.drop_last(), key)
    }
}

/// One record more under `key` counts once more under `key`, and not at all
/// under any other key.
pub proof fn lemma_times_under_push<T>(log: Seq<(u32, T)>, key: u32, record: T, other: u32)
    ensures
        times_under(log.push((key, record)), key) == times_under(log, key) + 1,
        other != key ==> times_under(log.push((key, record)), other) == times_under(log, other),
{
    assert(log.push((key, record)).drop_last() =~= log);
}

/// The node's state as a value.
///
/// Four logs stand beside the state proper. `proposals` and `requests`
/// record what the node has undertaken, in the order in which it did: each
/// proposal with its partnering id, each data request with its token.
/// `outcomes` and `answers` record what the node has handed to waiting
/// callers: the outcome of a proposal with the proposal's id, the bytes that
/// answer a data request with the request's token.
#[verifier::ext_equal]
pub struct NodeView {
    /// Proposals this node has made and that are not settled yet.
    pub pending: Map<u32, PartnershipView>,
    /// Partnerships that are established and in use.
    pub active: Map<u32, PartnershipView>,
    /// Partnerships that are established but not in use: the peer is taken
    /// to be away, or has not confirmed yet.
    pub inactive: Map<u32, PartnershipView>,
    /// Every partnering id that is taken.
    pub used_partnering_ids: Set<u32>,
    /// For each partnership this node accepted and that the proposer has
    /// not confirmed yet, the nonce it issued.
    pub issued_nonces: Map<u32, u32>,
    /// The data requests this node has made and that are not answered yet.
    pub pending_data_requests: Map<u32, DataRequestType>,
    pub profile: Seq<u8>,
    pub partner_list: Seq<u8>,
    pub contact_method: Seq<char>,
    /// For each peer that asked for it, the time before which no proposal
    /// is to be made to it.
    pub proposal_not_before: Map<Seq<char>, u64>,
    pub proposals: Seq<(u32, PartnershipView)>,
    pub outcomes: Seq<(u32, PendingPartnershipResolution)>,
    pub requests: Seq<(u32, DataRequestType)>,
    pub answers: Seq<(u32, Seq<u8>)>,
}

impl NodeView {
    /// A node that knows nobody and waits for nothing.
    pub open spec fn initial(contact_method: Seq<char>) -> NodeView {
        NodeView {
            pending: Map::empty(),
            active: Map::empty(),
            inactive: Map::empty(),
            used_partnering_ids: Set::empty(),
            issued_nonces: Map::empty(),
            pending_data_requests: Map::empty(),
            profile: Seq::empty(),
            partner_list: Seq::empty(),
            contact_method,
            proposal_not_before: Map::empty(),
            proposals: Seq::empty(),
            outcomes: Seq::empty(),
            requests: Seq::empty(),
            answers: Seq::empty(),
        }
    }

    /// One if a proposal is pending under `id`, zero if not.
    pub open spec fn pending_under(self, id: u32) -> nat {
        if self.pending.contains_key(id) {
            1
        } else {
            0
        }
    }

    /// One if a data request is pending under `token`, zero if not.
    pub open spec fn awaited_under(self, token: u32) -> nat {
        if self.pending_data_requests.contains_key(token) {
            1
        } else {
            0
        }
    }

    /// What must hold of a node's state at all times: a partnering id is
    /// taken exactly when a pending, active or inactive partnership has it,
    /// no two of these have the same id, each partnership is filed under its
    /// own id, and a nonce is on record only for an inactive partnership.
    /// Besides, under no id have more outcomes been handed over than
    /// proposals were made and are no longer pending, and under no token
    /// more answers than requests were made and are no longer pending.
    pub open spec fn consistent(self) -> bool {
        &&& forall|id: u32| #[trigger]
            times_under(self.outcomes, id) + self.pending_under(id) <= times_under(
                self.proposals,
                id,
            )
        &&& forall|token: u32| #[trigger]
            times_under(self.answers, token) + self.awaited_under(token) <= times_under(
                self.requests,
                token,
            )
        &&& self.used_partnering_ids =~= self.pending.dom() + self.active.dom()
            + self.inactive.dom()
        &&& self.pending.dom().disjoint(self.active.dom())
        &&& self.pending.dom().disjoint(self.inactive.dom())
        &&& self.active.dom().disjoint(self.inactive.dom())
        &&& forall|id: u32| #[trigger] self.pending.contains_key(id) ==> self.pending[id].id == id
        &&& forall|id: u32| #[trigger] self.active.contains_key(id) ==> self.active[id].id == id
        &&& forall|id: u32| #[trigger]
            self.inactive.contains_key(id) ==> self.inactive[id].id == id
        &&& self.issued_nonces.dom().subset_of(self.inactive.dom())
    }

    /// The state once `p` has been proposed.
    pub open spec fn with_proposal(self, p: PartnershipView) -> NodeView {
        NodeView {
            pending: self.pending.insert(p.id, p),
            used_partnering_ids: self.used_partnering_ids.insert(p.id),
            proposals: self.proposals.push((p.id, p)),
            ..self
        }
    }

    /// The state once the proposal `id` has ended with `outcome`: the
    /// proposal is gone, its id is free, and the outcome has been handed to
    /// whoever waited for it.
    pub open spec fn with_outcome(self, id: u32, outcome: PendingPartnershipResolution) -> NodeView {
        NodeView {
            pending: self.pending.remove(id),
            used_partnering_ids: self.used_partnering_ids.remove(id),
            outcomes: self.outcomes.push((id, outcome)),
            ..self
        }
    }

    /// The state once `p` is in use. If it was inactive it no longer is,
    /// and a nonce that was on record for it is dropped.
    pub open spec fn with_active(self, p: PartnershipView) -> NodeView {
        NodeView {
            active: self.active.insert(p.id, p),
            inactive: self.inactive.remove(p.id),
            issued_nonces: self.issued_nonces.remove(p.id),
            used_partnering_ids: self.used_partnering_ids.insert(p.id),
            ..self
        }
    }

    /// The state once `p` has been accepted under `nonce` and awaits the
    /// proposer's confirmation.
    pub open spec fn with_unconfirmed(self, p: PartnershipView, nonce: u32) -> NodeView {
        NodeView {
            inactive: self.inactive.insert(p.id, p),
            issued_nonces: self.issued_nonces.insert(p.id, nonce),
            used_partnering_ids: self.used_partnering_ids.insert(p.id),
            ..self
        }
    }

    /// Whether `nonce` is the one on record for the partnership `id`.
    pub open spec fn confirms(self, id: u32, nonce: u32) -> bool {
        self.issued_nonces.contains_key(id) && self.issued_nonces[id] == nonce
    }

    /// Whether a request of this kind is pending under `token`.
    pub open spec fn awaits(self, token: u32, kind: DataRequestType) -> bool {
        self.pending_data_requests.contains_key(token) && self.pending_data_requests[token]
            == kind
    }

    /// The state once a request of this kind is pending under `token`.
    pub open spec fn with_request(self, token: u32, kind: DataRequestType) -> NodeView {
        NodeView {
            pending_data_requests: self.pending_data_requests.insert(token, kind),
            requests: self.requests.push((token, kind)),
            ..self
        }
    }

    /// The state once the request `token` has been given up.
    pub open spec fn without_request(self, token: u32) -> NodeView {
        NodeView { pending_data_requests: self.pending_data_requests.remove(token), ..self }
    }

    /// The state once the request `token` has been answered with `bytes`:
    /// the request is gone and the bytes have been handed to whoever waited
    /// for them.
    pub open spec fn with_answer(self, token: u32, bytes: Seq<u8>) -> NodeView {
        NodeView {
            pending_data_requests: self.pending_data_requests.remove(token),
            answers: self.answers.push((token, bytes)),
            ..self
        }
    }

    /// The state once the partnership `id` has been confirmed: it is in
    /// use, and the nonce that was on record for it is spent.
    pub open spec fn with_confirmed(self, id: u32) -> NodeView {
        NodeView {
            active: self.active.insert(id, self.inactive[id]),
            inactive: self.inactive.remove(id),
            issued_nonces: self.issued_nonces.remove(id),
            ..self
        }
    }

    /// The state once no proposal is to go to `addressable` before `when`.
    pub open spec fn with_delay(self, addressable: Seq<char>, when: u64) -> NodeView {
        NodeView {
            proposal_not_before: self.proposal_not_before.insert(addressable, when),
            ..self
        }
    }

    /// The state once the partner list has been written anew.
    pub open spec fn with_fresh_partner_list(self) -> NodeView {
        NodeView { partner_list: partner_list_bytes(self.contact_method, self.active), ..self }
    }

    /// Whether a proposal may go to `addressable` at the time `now`.
    pub open spec fn may_propose_to(self, addressable: Seq<char>, now: u64) -> bool {
        self.proposal_not_before.contains_key(addressable) ==> self.proposal_not_before[addressable]
            <= now
    }
}

/// An outcome ends a proposal for good. Once it has been handed over, the
/// state is consistent still, one outcome more is on record, and no
/// partnership of any standing has the proposal's id: until the id is used
/// anew, nothing can be handed over under it again.
pub proof fn lemma_outcome_is_final(pre: NodeView, id: u32, outcome: PendingPartnershipResolution)
    requires
        pre.consistent(),
        pre.pending.contains_key(id),
    ensures
        pre.with_outcome(id, outcome).consistent(),
        pre.with_outcome(id, outcome).outcomes == pre.outcomes.push((id, outcome)),
        !pre.with_outcome(id, outcome).pending.contains_key(id),
        !pre.with_outcome(id, outcome).active.contains_key(id),
        !pre.with_outcome(id, outcome).inactive.contains_key(id),
        !pre.with_outcome(id, outcome).used_partnering_ids.contains(id),
{
    let post = pre.with_outcome(id, outcome);
    assert(post.used_partnering_ids =~= post.pending.dom() + post.active.dom()
        + post.inactive.dom());
    assert forall|other: u32| #[trigger]
        times_under(post.outcomes, other) + post.pending_under(other) <= times_under(
            post.proposals,
            other,
        ) by {
        lemma_times_under_push(pre.outcomes, id, outcome, other);
        assert(times_under(pre.outcomes, other) + pre.pending_under(other) <= times_under(
            pre.proposals,
            other,
        ));
    }
}

/// An answer ends a data request for good. Once it has been handed over,
/// the state is consistent still, one answer more is on record, and no
/// request of either kind is pending under the token: until the token is
/// used anew, nothing can be handed over under it again.
pub proof fn lemma_answer_is_final(pre: NodeView, token: u32, bytes: Seq<u8>)
    requires
        pre.consistent(),
        pre.pending_data_requests.contains_key(token),
    ensures
        pre.with_answer(token, bytes).consistent(),
        pre.with_answer(token, bytes).answers == pre.answers.push((token, bytes)),
        !pre.with_answer(token, bytes).pending_data_requests.contains_key(token),
        forall|kind: DataRequestType| !pre.with_answer(token, bytes).awaits(token, kind),
{
    let post = pre.with_answer(token, bytes);
    assert forall|other: u32| #[trigger]
        times_under(post.answers, other) + post.awaited_under(other) <= times_under(
            post.requests,
            other,
        ) by {
        lemma_times_under_push(pre.answers, token, bytes, other);
        assert(times_under(pre.answers, other) + pre.awaited_under(other) <= times_under(
            pre.requests,
            other,
        ));
    }
}

} // verus!
