use partnering::node::{HandleError, Node, Partnership, PendingPartnershipResolution};
use partnering::subscribe::{handle_subscribe, Subscribe};
use partnering::subscribe_accept::{handle_subscribe_accept, SubscribeAccept};
use partnering::subscribe_decline::{handle_subscribe_decline, SubscribeDecline};
use partnering::subscribe_finalize::{handle_subscribe_finalize, SubscribeFinalize};
use rand::rngs::StdRng;
use rand::SeedableRng;
use std::sync::mpsc::TryRecvError;

fn node_named(contact_method: &str, seed: u8) -> Node {
    Node::new(contact_method.to_string(), StdRng::from_seed([seed; 32]))
}

fn partnership(id: u32, address: &str) -> Partnership {
    Partnership { address: address.to_string(), resolved_address: None, key: [id as u8; 32], id }
}

fn proposal_body(id: u32, key: &[u8; 32], contact_method: &[u8]) -> Vec<u8> {
    Subscribe::new(id, key, contact_method).serialize()[1..].to_vec()
}

#[test]
fn subscribe_for_an_active_id_is_declined_with_no_delay() {
    let mut node = node_named("self.mynode.net", 1);
    node.add_active_partnership(partnership(7, "seven.example"));
    let body = proposal_body(7, &[1u8; 32], b"proposer.example");

    let reply = handle_subscribe(&mut node, &body).unwrap().unwrap();

    assert_eq!(reply, SubscribeDecline { partnering_id: 7, retry_delay_seconds: 0 }.serialize());
    assert_eq!(reply, vec![1, 7, 0, 0, 0, 0, 0, 0, 0]);
    // Nothing changed: the partnership that had the id still has it.
    assert_eq!(node.active_partnership_count(), 1);
    assert_eq!(node.get_partnership(7).unwrap().address, "seven.example");
}

#[test]
fn subscribe_for_a_pending_or_inactive_id_is_a_collision_too() {
    let mut node = node_named("self.mynode.net", 2);
    let (pending, _, receiver) = node.create_partnership_proposal("peer.example".to_string());
    let inactive = pending.wrapping_add(1);
    node.add_unconfirmed_partnership(partnership(inactive, "inactive.example"), 5);

    for id in [pending, inactive] {
        let body = proposal_body(id, &[1u8; 32], b"proposer.example");
        let reply = handle_subscribe(&mut node, &body).unwrap().unwrap();
        assert_eq!(
            reply,
            SubscribeDecline { partnering_id: id, retry_delay_seconds: 0 }.serialize()
        );
    }
    assert_eq!(receiver.try_recv().unwrap_err(), TryRecvError::Empty);
    assert_eq!(node.get_partnership(inactive).unwrap().address, "inactive.example");
    assert!(node.get_partnership(pending).is_none());
}

#[test]
fn subscribe_for_a_free_id_is_accepted_and_filed() {
    let mut node = node_named("self.mynode.net", 3);
    let mut key = [0u8; 32];
    for i in 0..32 {
        key[i] = 3 * i as u8;
    }
    let body = proposal_body(0x0102_0304, &key, b"proposer.example:4000");

    let reply = handle_subscribe(&mut node, &body).unwrap().unwrap();

    assert_eq!(reply.len(), 9);
    assert_eq!(reply[0], 2);
    let accept = SubscribeAccept::deserialize(&reply[1..]).unwrap();
    assert_eq!(accept.partnering_id, 0x0102_0304);

    assert!(node.is_partnering_id_used(0x0102_0304));
    assert_eq!(node.active_partnership_count(), 0);
    let filed = node.get_partnership(0x0102_0304).unwrap();
    assert_eq!(filed.id, 0x0102_0304);
    assert_eq!(filed.key, key);
    assert_eq!(filed.address, "proposer.example:4000");
    assert_eq!(filed.resolved_address, None);

    // The nonce in the answer is the one that confirms.
    assert!(node.confirm_partnership(0x0102_0304, accept.confirmation_nonce));
    assert_eq!(node.active_partnership_count(), 1);
}

#[test]
fn subscribe_with_a_garbled_contact_method_marks_what_it_cannot_read() {
    let mut node = node_named("self.mynode.net", 3);
    let body = proposal_body(1, &[0u8; 32], &[b'a', 0xff, b'b']);
    handle_subscribe(&mut node, &body).unwrap().unwrap();
    assert_eq!(node.get_partnership(1).unwrap().address, "a\u{fffd}b");

    let body = proposal_body(2, &[0u8; 32], "b\u{fc}cher.example".as_bytes());
    handle_subscribe(&mut node, &body).unwrap().unwrap();
    assert_eq!(node.get_partnership(2).unwrap().address, "b\u{fc}cher.example");

    let body = proposal_body(3, &[0u8; 32], b"");
    handle_subscribe(&mut node, &body).unwrap().unwrap();
    assert_eq!(node.get_partnership(3).unwrap().address, "");
}

#[test]
fn subscribe_that_is_cut_short_changes_nothing() {
    let mut node = node_named("self.mynode.net", 3);
    let body = proposal_body(9, &[0u8; 32], b"");
    assert_eq!(handle_subscribe(&mut node, &body[..35]), Err(HandleError::PacketTruncated));
    assert_eq!(handle_subscribe(&mut node, &[]), Err(HandleError::PacketTruncated));
    assert!(!node.is_partnering_id_used(9));
}

#[test]
fn decline_ends_the_pending_proposal() {
    let mut node = node_named("self.mynode.net", 4);
    let (id, _, receiver) = node.create_partnership_proposal("peer.example".to_string());
    let body = SubscribeDecline { partnering_id: id, retry_delay_seconds: 45 }.serialize();

    assert_eq!(handle_subscribe_decline(&mut node, &body[1..]), Ok(None));

    assert_eq!(
        receiver.try_recv(),
        Ok(PendingPartnershipResolution::Declined { retry_delay_seconds: 45 })
    );
    assert!(!node.is_partnering_id_used(id));
    assert_eq!(node.active_partnership_count(), 0);
    // A second decline finds nothing to end.
    assert_eq!(
        handle_subscribe_decline(&mut node, &body[1..]),
        Err(HandleError::DeclinedSubscriptionDoesNotExist)
    );
    assert_eq!(receiver.try_recv().unwrap_err(), TryRecvError::Disconnected);
}

#[test]
fn decline_for_nothing_pending_is_reported() {
    let mut node = node_named("self.mynode.net", 4);
    node.add_active_partnership(partnership(8, "eight.example"));
    for id in [8u32, 9] {
        let body = SubscribeDecline { partnering_id: id, retry_delay_seconds: 0 }.serialize();
        assert_eq!(
            handle_subscribe_decline(&mut node, &body[1..]),
            Err(HandleError::DeclinedSubscriptionDoesNotExist)
        );
    }
    assert_eq!(node.active_partnership_count(), 1);
    assert!(node.is_partnering_id_used(8));
}

#[test]
fn decline_that_does_not_parse_is_reported_as_such() {
    let mut node = node_named("self.mynode.net", 4);
    let (id, _, receiver) = node.create_partnership_proposal("peer.example".to_string());
    let body = SubscribeDecline { partnering_id: id, retry_delay_seconds: 0 }.serialize();
    assert_eq!(
        handle_subscribe_decline(&mut node, &body[1..8]),
        Err(HandleError::PacketTruncated)
    );
    let mut long = body[1..].to_vec();
    long.push(0);
    assert_eq!(
        handle_subscribe_decline(&mut node, &long),
        Err(HandleError::PacketContinuedUnexpectedly)
    );
    assert!(node.is_partnering_id_used(id));
    assert_eq!(receiver.try_recv().unwrap_err(), TryRecvError::Empty);
}

#[test]
fn accept_promotes_the_pending_proposal() {
    let mut node = node_named("self.mynode.net", 5);
    let (id, message, receiver) = node.create_partnership_proposal("peer.example:7".to_string());
    let key = Subscribe::deserialize(&message[1..]).unwrap().key().to_vec();
    let body = SubscribeAccept { partnering_id: id, confirmation_nonce: 0xabcd }.serialize();

    assert_eq!(handle_subscribe_accept(&mut node, &body[1..]), Ok(None));

    assert_eq!(receiver.try_recv(), Ok(PendingPartnershipResolution::Accepted(0xabcd)));
    assert_eq!(node.active_partnership_count(), 1);
    assert!(node.is_partnering_id_used(id));
    let partner = node.get_partnership(id).unwrap();
    assert_eq!(partner.id, id);
    assert_eq!(partner.address, "peer.example:7");
    assert_eq!(&partner.key[..], &key[..]);

    // The proposal is settled: a second acceptance finds nothing pending.
    assert_eq!(
        handle_subscribe_accept(&mut node, &body[1..]),
        Err(HandleError::DeclinedSubscriptionDoesNotExist)
    );
    assert_eq!(node.active_partnership_count(), 1);
    assert_eq!(receiver.try_recv().unwrap_err(), TryRecvError::Disconnected);
}

#[test]
fn accept_for_nothing_pending_is_reported() {
    let mut node = node_named("self.mynode.net", 5);
    let body = SubscribeAccept { partnering_id: 3, confirmation_nonce: 1 }.serialize();
    assert_eq!(
        handle_subscribe_accept(&mut node, &body[1..]),
        Err(HandleError::DeclinedSubscriptionDoesNotExist)
    );
    assert_eq!(node.active_partnership_count(), 0);
    assert!(!node.is_partnering_id_used(3));
    assert_eq!(handle_subscribe_accept(&mut node, &body[1..5]), Err(HandleError::PacketTruncated));
}

#[test]
fn finalize_needs_the_nonce_that_was_issued() {
    let mut node = node_named("self.mynode.net", 6);
    node.add_unconfirmed_partnership(partnership(12, "twelve.example"), 0x5151);

    let wrong = SubscribeFinalize { partnering_id: 12, confirmation_nonce: 0x5152 }.serialize();
    assert_eq!(handle_subscribe_finalize(&mut node, &wrong[1..]), Ok(None));
    assert_eq!(node.active_partnership_count(), 0);

    let unknown = SubscribeFinalize { partnering_id: 13, confirmation_nonce: 0x5151 }.serialize();
    assert_eq!(handle_subscribe_finalize(&mut node, &unknown[1..]), Ok(None));
    assert_eq!(node.active_partnership_count(), 0);
    assert!(!node.is_partnering_id_used(13));

    let right = SubscribeFinalize { partnering_id: 12, confirmation_nonce: 0x5151 }.serialize();
    assert_eq!(handle_subscribe_finalize(&mut node, &right[1..]), Ok(None));
    assert_eq!(node.active_partnership_count(), 1);
    assert_eq!(node.get_partnership(12).unwrap().address, "twelve.example");

    assert_eq!(
        handle_subscribe_finalize(&mut node, &right[1..6]),
        Err(HandleError::PacketTruncated)
    );
    let mut long = right[1..].to_vec();
    long.push(1);
    assert_eq!(
        handle_subscribe_finalize(&mut node, &long),
        Err(HandleError::PacketContinuedUnexpectedly)
    );
}

#[test]
fn packets_without_a_handler_are_refused() {
    let mut node = node_named("self.mynode.net", 7);
    assert_eq!(node.handle_received_packet(&[]), Err(HandleError::MissingPacketType));
    for tag in [3u8, 5, 6, 7, 12, 100, 255] {
        assert_eq!(node.handle_received_packet(&[tag]), Err(HandleError::InvalidPacketType));
        assert_eq!(
            node.handle_received_packet(&[tag, 1, 2, 3, 4, 5, 6, 7, 8]),
            Err(HandleError::InvalidPacketType)
        );
    }
    for tag in [0u8, 1, 2, 4, 8, 9, 10, 11] {
        assert_eq!(node.handle_received_packet(&[tag]), Err(HandleError::PacketTruncated));
    }
}

#[test]
fn two_nodes_shake_hands() {
    let mut proposer = node_named("proposer.example:1", 8);
    let mut acceptor = node_named("acceptor.example:2", 9);

    let (id, proposal, receiver) =
        proposer.create_partnership_proposal("acceptor.example:2".to_string());
    let accept = acceptor.handle_received_packet(&proposal).unwrap().unwrap();
    assert_eq!(acceptor.active_partnership_count(), 0);
    assert_eq!(acceptor.get_partnership(id).unwrap().address, "proposer.example:1");

    assert_eq!(proposer.handle_received_packet(&accept), Ok(None));
    assert_eq!(proposer.active_partnership_count(), 1);
    let nonce = match receiver.try_recv().unwrap() {
        PendingPartnershipResolution::Accepted(nonce) => nonce,
        other => panic!("the proposal ended with {:?}", other),
    };

    let finalize = SubscribeFinalize { partnering_id: id, confirmation_nonce: nonce }.serialize();
    assert_eq!(acceptor.handle_received_packet(&finalize), Ok(None));
    assert_eq!(acceptor.active_partnership_count(), 1);

    // Both sides hold the same key under the same id.
    let key = proposer.get_partnership(id).unwrap().key;
    assert_eq!(acceptor.get_partnership(id).unwrap().key, key);
    assert_eq!(
        acceptor.extract_partner_list_slice(0, 100),
        &b"acceptor.example:2\0proposer.example:1\0"[..]
    );
    assert_eq!(
        proposer.extract_partner_list_slice(0, 100),
        &b"proposer.example:1\0acceptor.example:2\0"[..]
    );
}

#[test]
fn a_collision_is_answered_by_a_decline_that_frees_the_proposer() {
    let mut proposer = node_named("proposer.example:1", 10);
    let mut acceptor = node_named("acceptor.example:2", 11);
    let (id, proposal, receiver) =
        proposer.create_partnership_proposal("acceptor.example:2".to_string());
    acceptor.add_active_partnership(partnership(id, "somebody.else"));

    let decline = acceptor.handle_received_packet(&proposal).unwrap().unwrap();
    assert_eq!(decline, SubscribeDecline { partnering_id: id, retry_delay_seconds: 0 }.serialize());

    assert_eq!(proposer.handle_received_packet(&decline), Ok(None));
    assert_eq!(
        receiver.try_recv(),
        Ok(PendingPartnershipResolution::Declined { retry_delay_seconds: 0 })
    );
    assert!(!proposer.is_partnering_id_used(id));
    assert_eq!(acceptor.get_partnership(id).unwrap().address, "somebody.else");
}
