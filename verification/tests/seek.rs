use partnering::node::{Node, Partnership, PendingPartnershipResolution};
use partnering::seek::{after_attempt, get_partner_candidate, needs_more_partners};
use partnering::seek::{should_propose_to, AttemptResult, SeekStep};
use partnering::seek::{MAX_TRIES, OUTCOME_WAIT_SECONDS, PASS_INTERVAL_SECONDS, WANTED_PARTNERS};
use partnering::subscribe_finalize::SubscribeFinalize;
use rand::rngs::StdRng;
use rand::SeedableRng;
use std::sync::mpsc::TryRecvError;

fn node_named(contact_method: &str, seed: u8) -> Node {
    Node::new(contact_method.to_string(), StdRng::from_seed([seed; 32]))
}

fn partnership(id: u32) -> Partnership {
    Partnership { address: format!("peer{}.example", id), resolved_address: None, key: [0; 32], id }
}

#[test]
fn seeker_settings() {
    assert_eq!(WANTED_PARTNERS, 20);
    assert_eq!(MAX_TRIES, 4);
    assert_eq!(OUTCOME_WAIT_SECONDS, 10);
    assert_eq!(PASS_INTERVAL_SECONDS, 30);
}

#[test]
fn more_partners_are_wanted_below_twenty() {
    let mut node = node_named("self.mynode.net", 1);
    for id in 0..19 {
        assert!(needs_more_partners(&node));
        node.add_active_partnership(partnership(id));
    }
    assert!(needs_more_partners(&node));
    node.add_active_partnership(partnership(19));
    assert!(!needs_more_partners(&node));
    node.add_active_partnership(partnership(20));
    assert!(!needs_more_partners(&node));
    // Partnerships that are not in use do not count.
    let mut node = node_named("self.mynode.net", 1);
    for id in 0..30 {
        node.add_unconfirmed_partnership(partnership(id), 0);
    }
    assert!(needs_more_partners(&node));
}

#[test]
fn no_candidate_is_known() {
    let mut node = node_named("self.mynode.net", 1);
    assert_eq!(get_partner_candidate(&node), None);
    node.add_active_partnership(partnership(1));
    assert_eq!(get_partner_candidate(&node), None);
}

#[test]
fn proposing_waits_for_the_delay_to_pass() {
    let mut node = node_named("self.mynode.net", 2);
    let who = "peer.example".to_string();
    assert!(should_propose_to(&node, &who, 0));
    node.delay_partnership_proposal_until(who.clone(), 500);
    assert!(!should_propose_to(&node, &who, 499));
    assert!(should_propose_to(&node, &who, 500));
    assert!(should_propose_to(&node, &"other.example".to_string(), 0));
    for id in 0..20 {
        node.add_active_partnership(partnership(id));
    }
    assert!(!should_propose_to(&node, &who, 500));
    assert!(!should_propose_to(&node, &"other.example".to_string(), 0));
}

#[test]
fn accepted_attempt_is_confirmed() {
    let mut node = node_named("self.mynode.net", 3);
    let result = AttemptResult::Resolved(PendingPartnershipResolution::Accepted(0x0a0b));
    let step = after_attempt(&mut node, "peer.example".to_string(), 0x0102, 1, result, 1000);
    assert_eq!(
        step,
        SeekStep::Finalize(
            SubscribeFinalize { partnering_id: 0x0102, confirmation_nonce: 0x0a0b }.serialize()
        )
    );
    assert_eq!(step, SeekStep::Finalize(vec![4, 2, 1, 0, 0, 0x0b, 0x0a, 0, 0]));
    assert!(node.may_propose_to(&"peer.example".to_string(), 0));
}

#[test]
fn declined_attempt_with_a_delay_is_put_off() {
    let mut node = node_named("self.mynode.net", 3);
    let who = "peer.example".to_string();
    let result =
        AttemptResult::Resolved(PendingPartnershipResolution::Declined { retry_delay_seconds: 60 });
    let step = after_attempt(&mut node, who.clone(), 5, 1, result, 1000);
    assert_eq!(step, SeekStep::GiveUp);
    assert!(!node.may_propose_to(&who, 1059));
    assert!(node.may_propose_to(&who, 1060));

    let result = AttemptResult::Resolved(PendingPartnershipResolution::Declined {
        retry_delay_seconds: u32::MAX,
    });
    let step = after_attempt(&mut node, who.clone(), 5, 1, result, 0);
    assert_eq!(step, SeekStep::GiveUp);
    assert!(!node.may_propose_to(&who, u32::MAX as u64 - 1));
    assert!(node.may_propose_to(&who, u32::MAX as u64));
}

#[test]
fn declined_attempt_without_a_delay_is_repeated_up_to_the_limit() {
    let mut node = node_named("self.mynode.net", 3);
    let who = "peer.example".to_string();
    let result =
        AttemptResult::Resolved(PendingPartnershipResolution::Declined { retry_delay_seconds: 0 });
    for try_number in 1..MAX_TRIES {
        let step = after_attempt(&mut node, who.clone(), 5, try_number, result, 1000);
        assert_eq!(step, SeekStep::Retry);
    }
    assert_eq!(after_attempt(&mut node, who.clone(), 5, MAX_TRIES, result, 1000), SeekStep::GiveUp);
    assert_eq!(after_attempt(&mut node, who.clone(), 5, 200, result, 1000), SeekStep::GiveUp);
    // No delay was asked for, so none is kept.
    assert!(node.may_propose_to(&who, 0));
}

#[test]
fn reported_timeout_ends_the_pass() {
    let mut node = node_named("self.mynode.net", 3);
    let result = AttemptResult::Resolved(PendingPartnershipResolution::Timeout);
    let step = after_attempt(&mut node, "peer.example".to_string(), 5, 1, result, 1000);
    assert_eq!(step, SeekStep::GiveUp);
}

#[test]
fn expired_wait_gives_the_proposal_up() {
    let mut node = node_named("self.mynode.net", 4);
    let who = "peer.example".to_string();
    let (id, _, receiver) = node.create_partnership_proposal(who.clone());
    let step = after_attempt(&mut node, who.clone(), id, 1, AttemptResult::WaitExpired, 1000);
    assert_eq!(step, SeekStep::GiveUp);
    assert!(!node.is_partnering_id_used(id));
    assert_eq!(receiver.try_recv(), Ok(PendingPartnershipResolution::Timeout));
    assert!(node.may_propose_to(&who, 0));

    // Nothing is pending any more; a second expiry changes nothing.
    let step = after_attempt(&mut node, who, id, 2, AttemptResult::WaitExpired, 1000);
    assert_eq!(step, SeekStep::GiveUp);
    assert_eq!(receiver.try_recv().unwrap_err(), TryRecvError::Disconnected);
}
