//! The decisions of the loop that seeks new partners.
//!
//! Every so often the seeker looks whether the node has as many partners in
//! use as it wants, and if not, proposes a partnership to a candidate. One
//! proposal is one attempt: the seeker sends it, waits a bounded time for the
//! outcome, and then asks `after_attempt` what to do. The waiting and the
//! sending are the caller's; what follows from each outcome is decided here.

use crate::node::{Addressable, Node, PendingPartnershipResolution};
use crate::subscribe_finalize::SubscribeFinalize;
use crate::state::NodeView;
use vstd::prelude::*;

verus! {

/// The number of partnerships in use that the seeker aims for.
pub const WANTED_PARTNERS: usize = 20;

/// The number of attempts the seeker makes with one candidate in one pass.
pub const MAX_TRIES: u8 = 4;

/// The number of seconds the seeker waits for the outcome of an attempt.
pub const OUTCOME_WAIT_SECONDS: u64 = 10;

/// The number of seconds between two passes of the seeker.
pub const PASS_INTERVAL_SECONDS: u64 = 30;

/// Whether the node has fewer partnerships in use than the seeker aims for.
pub fn needs_more_partners(node: &Node) -> (needed: bool)
    requires
        node.wf(),
    ensures
        needed == (node@.active.len() < WANTED_PARTNERS),
{
    node.active_partnership_count() < WANTED_PARTNERS
}

/// The next peer to propose a partnership to. No source of candidates is
/// known yet, so there is never one.
pub fn get_partner_candidate(node: &Node) -> (candidate: Option<Addressable>)
    ensures
        candidate is None,
{
    None
}

/// Whether the seeker should propose to `candidate` at the time `now`: the
/// node wants more partners, and the candidate has not asked to be left
/// alone until later.
pub fn should_propose_to(node: &Node, candidate: &Addressable, now: u64) -> (go: bool)
    requires
        node.wf(),
    ensures
        go == (node@.active.len() < WANTED_PARTNERS && node@.may_propose_to(candidate@, now)),
{
    needs_more_partners(node) && node.may_propose_to(candidate, now)
}

/// What the seeker learned at the end of an attempt.
#[derive(Debug, Clone, Copy, PartialEq, Eq, Structural)]
pub enum AttemptResult {
    /// The outcome arrived in time.
    Resolved(PendingPartnershipResolution),
    /// The wait ran out and no outcome had arrived.
    WaitExpired,
}

/// What the seeker is to do after an attempt.
#[derive(Debug, Clone, PartialEq, Eq)]
pub enum SeekStep {
    /// The partnership stands: send this confirmation and stop.
    Finalize(Vec<u8>),
    /// Propose again at once, under a fresh id.
    Retry,
    /// Stop without a partnership; the candidate may be tried on a later
    /// pass.
    GiveUp,
}

/// What the seeker is to do after an attempt, as a value.
pub enum SeekStepView {
    Finalize(Seq<u8>),
    Retry,
    GiveUp,
}

impl View for SeekStep {
    type V = SeekStepView;

    open spec fn view(&self) -> SeekStepView {
        match self {
            SeekStep::Finalize(packet) => SeekStepView::Finalize(packet@),
            SeekStep::Retry => SeekStepView::Retry,
            SeekStep::GiveUp => SeekStepView::GiveUp,
        }
    }
}

/// The time `seconds` after `now`.
pub open spec fn deadline_after(now: u64, seconds: u32) -> int {
    now + seconds
}

/// Whether the time an attempt's result asks the seeker to wait until can be
/// told: it does not lie beyond the last moment the clock can show.
pub open spec fn deadline_fits(result: AttemptResult, now: u64) -> bool {
    match result {
        AttemptResult::Resolved(PendingPartnershipResolution::Declined { retry_delay_seconds }) =>
            deadline_after(now, retry_delay_seconds) <= u64::MAX,
        _ => true,
    }
}

/// What follows from an attempt: `who` was proposed to under the id
/// `potential_id`, this was attempt number `try_number`, counted from one,
/// it ended with `result` at the time `now`; `pre` and `post` are the node's
/// state before and after, `step` is what the seeker is to do.
///
/// Accepted: the seeker confirms with the nonce it was given, and stops.
/// Declined with a delay: the delay goes on record for the peer, and the
/// seeker stops. Declined with no delay: the seeker proposes again, unless
/// this was the last attempt it is allowed. A reported timeout: the seeker
/// stops. No outcome in time: the proposal, if it is still pending, is ended
/// as timed out, and the seeker stops.
pub open spec fn attempt_followed_up(
    pre: NodeView,
    who: Seq<char>,
    potential_id: u32,
    try_number: u8,
    result: AttemptResult,
    now: u64,
    post: NodeView,
    step: SeekStepView,
) -> bool {
    match result {
        AttemptResult::Resolved(PendingPartnershipResolution::Accepted(confirmation_nonce)) => {
            &&& post == pre
            &&& step == SeekStepView::Finalize(
                (SubscribeFinalize {
                    partnering_id: potential_id,
                    confirmation_nonce,
                }).spec_serialize(),
            )
        },
        AttemptResult::Resolved(PendingPartnershipResolution::Declined { retry_delay_seconds }) =>
            if retry_delay_seconds > 0 {
                &&& post == pre.with_delay(who, deadline_after(now, retry_delay_seconds) as u64)
                &&& step == SeekStepView::GiveUp
            } else {
                &&& post == pre
                &&& step == if try_number < MAX_TRIES {
                    SeekStepView::Retry
                } else {
                    SeekStepView::GiveUp
                }
            },
        AttemptResult::Resolved(PendingPartnershipResolution::Timeout) => {
            &&& post == pre
            &&& step == SeekStepView::GiveUp
        },
        AttemptResult::WaitExpired => {
            &&& post == if pre.pending.contains_key(potential_id) {
                pre.with_outcome(potential_id, PendingPartnershipResolution::Timeout)
            } else {
                pre
            }
            &&& step == SeekStepView::GiveUp
        },
    }
}

/// Decides what follows from an attempt, and brings the node's state in
/// line with it.
///
/// The time a decline asks to wait until must be one the clock can show.
pub fn after_attempt(
    node: &mut Node,
    who: Addressable,
    potential_id: u32,
    try_number: u8,
    result: AttemptResult,
    now: u64,
) -> (step: SeekStep)
    requires
        old(node).wf(),
        deadline_fits(result, now),
    ensures
        final(node).wf(),
        attempt_followed_up(
            old(node)@,
            who@,
            potential_id,
            try_number,
            result,
            now,
            final(node)@,
            step@,
        ),
{
    match result {
        AttemptResult::Resolved(PendingPartnershipResolution::Accepted(confirmation_nonce)) => {
            // The node has taken the partnership into use already.
            let confirmation = SubscribeFinalize { partnering_id: potential_id, confirmation_nonce };
            SeekStep::Finalize(confirmation.serialize())
        },
        AttemptResult::Resolved(PendingPartnershipResolution::Declined { retry_delay_seconds }) => {
            if retry_delay_seconds > 0 {
                let retry_time = now + retry_delay_seconds as u64;
                node.delay_partnership_proposal_until(who, retry_time);
                SeekStep::GiveUp
            } else if try_number < MAX_TRIES {
                // A decline with no delay: most likely the id is taken on the
                // other side. Try again at once.
                SeekStep::Retry
            } else {
                // Told to try again at once, time after time. Not forever.
                SeekStep::GiveUp
            }
        },
        AttemptResult::Resolved(PendingPartnershipResolution::Timeout) => SeekStep::GiveUp,
        AttemptResult::WaitExpired => {
            // The wait ran out. Tell the node to give the proposal up.
            node.remove_pending_partnership_proposal(
                potential_id,
                PendingPartnershipResolution::Timeout,
            );
            SeekStep::GiveUp
        },
    }
}

} // verus!
