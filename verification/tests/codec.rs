use partnering::node::HandleError;
use partnering::packet_type;
use partnering::partner_list_request::PartnerListRequest;
use partnering::partner_list_response::PartnerListResponse;
use partnering::peel::{push_u32, push_zero_padding, u32_le_bytes};
use partnering::profile_request::ProfileRequest;
use partnering::profile_response::ProfileResponse;
use partnering::subscribe::Subscribe;
use partnering::subscribe_accept::SubscribeAccept;
use partnering::subscribe_decline::SubscribeDecline;
use partnering::subscribe_finalize::SubscribeFinalize;

const IDS: [u32; 5] = [0, 1, 7, 0x1234_5678, u32::MAX];

#[test]
fn type_tags_are_all_different() {
    let tags = [
        packet_type::SUBSCRIBE,
        packet_type::SUBSCRIBE_DECLINE,
        packet_type::SUBSCRIBE_ACCEPT,
        packet_type::SUBSCRIBE_FINALIZE,
        packet_type::DATA,
        packet_type::PROFILE_REQUEST,
        packet_type::PROFILE_RESPONSE,
        packet_type::PARTNER_LIST_REQUEST,
        packet_type::PARTNER_LIST_RESPONSE,
    ];
    for i in 0..tags.len() {
        for j in 0..i {
            assert_ne!(tags[i], tags[j]);
        }
    }
    assert_eq!(packet_type::DATA, 5);
}

#[test]
fn u32_is_written_little_endian() {
    assert_eq!(u32_le_bytes(0x1234_5678), [0x78, 0x56, 0x34, 0x12]);
    assert_eq!(u32_le_bytes(0), [0, 0, 0, 0]);
    assert_eq!(u32_le_bytes(u32::MAX), [0xff, 0xff, 0xff, 0xff]);
    let mut out = vec![9u8];
    push_u32(&mut out, 258);
    assert_eq!(out, vec![9, 2, 1, 0, 0]);
    push_zero_padding(&mut out, 3);
    assert_eq!(out, vec![9, 2, 1, 0, 0, 0, 0, 0]);
    push_zero_padding(&mut out, 0);
    assert_eq!(out.len(), 8);
}

#[test]
fn subscribe_decline_layout() {
    let m = SubscribeDecline { partnering_id: 7, retry_delay_seconds: 0 };
    assert_eq!(m.serialize(), vec![1, 7, 0, 0, 0, 0, 0, 0, 0]);
    let m = SubscribeDecline { partnering_id: 0x0102_0304, retry_delay_seconds: 10_000 };
    assert_eq!(m.serialize(), vec![1, 4, 3, 2, 1, 0x10, 0x27, 0, 0]);
    assert_eq!(
        SubscribeDecline::deserialize(&[4, 3, 2, 1, 0x10, 0x27, 0, 0]),
        Ok(SubscribeDecline { partnering_id: 0x0102_0304, retry_delay_seconds: 10_000 })
    );
}

#[test]
fn subscribe_accept_layout() {
    let m = SubscribeAccept { partnering_id: 7, confirmation_nonce: 0xdead_beef };
    assert_eq!(m.serialize(), vec![2, 7, 0, 0, 0, 0xef, 0xbe, 0xad, 0xde]);
    assert_eq!(
        SubscribeAccept::deserialize(&[7, 0, 0, 0, 0xef, 0xbe, 0xad, 0xde]),
        Ok(m)
    );
}

#[test]
fn subscribe_finalize_layout() {
    let m = SubscribeFinalize { partnering_id: 300, confirmation_nonce: 1 };
    assert_eq!(m.serialize(), vec![4, 0x2c, 1, 0, 0, 1, 0, 0, 0]);
    assert_eq!(SubscribeFinalize::deserialize(&[0x2c, 1, 0, 0, 1, 0, 0, 0]), Ok(m));
}

#[test]
fn fixed_length_messages_reject_short_bodies() {
    let body = [1u8, 2, 3, 4, 5, 6, 7, 8];
    for len in 0..8 {
        assert_eq!(SubscribeDecline::deserialize(&body[..len]), Err(HandleError::PacketTruncated));
        assert_eq!(SubscribeAccept::deserialize(&body[..len]), Err(HandleError::PacketTruncated));
        assert_eq!(SubscribeFinalize::deserialize(&body[..len]), Err(HandleError::PacketTruncated));
    }
}

#[test]
fn fixed_length_messages_reject_long_bodies() {
    for extra in 1..5 {
        let body = vec![0u8; 8 + extra];
        assert_eq!(
            SubscribeDecline::deserialize(&body),
            Err(HandleError::PacketContinuedUnexpectedly)
        );
        assert_eq!(
            SubscribeAccept::deserialize(&body),
            Err(HandleError::PacketContinuedUnexpectedly)
        );
        assert_eq!(
            SubscribeFinalize::deserialize(&body),
            Err(HandleError::PacketContinuedUnexpectedly)
        );
    }
}

#[test]
fn fixed_length_messages_round_trip() {
    for &id in IDS.iter() {
        for &other in IDS.iter() {
            let m = SubscribeDecline { partnering_id: id, retry_delay_seconds: other };
            let bytes = m.serialize();
            assert_eq!(bytes[0], packet_type::SUBSCRIBE_DECLINE);
            assert_eq!(SubscribeDecline::deserialize(&bytes[1..]), Ok(m));

            let m = SubscribeAccept { partnering_id: id, confirmation_nonce: other };
            let bytes = m.serialize();
            assert_eq!(bytes[0], packet_type::SUBSCRIBE_ACCEPT);
            assert_eq!(SubscribeAccept::deserialize(&bytes[1..]), Ok(m));

            let m = SubscribeFinalize { partnering_id: id, confirmation_nonce: other };
            let bytes = m.serialize();
            assert_eq!(bytes[0], packet_type::SUBSCRIBE_FINALIZE);
            assert_eq!(SubscribeFinalize::deserialize(&bytes[1..]), Ok(m));
        }
    }
}

#[test]
fn subscribe_layout() {
    let mut key = [0u8; 32];
    for i in 0..32 {
        key[i] = 100 + i as u8;
    }
    let m = Subscribe::new(0x0a0b_0c0d, &key, b"node.example:9");
    assert_eq!(m.partnering_id(), 0x0a0b_0c0d);
    assert_eq!(m.key(), &key[..]);
    assert_eq!(m.contact_method(), &b"node.example:9"[..]);
    let bytes = m.serialize();
    let mut expected = vec![0u8, 0x0d, 0x0c, 0x0b, 0x0a];
    expected.extend_from_slice(&key);
    expected.extend_from_slice(b"node.example:9");
    assert_eq!(bytes, expected);
    assert_eq!(bytes.len(), 37 + 14);
}

#[test]
fn subscribe_round_trip() {
    let keys = [[0u8; 32], [0xffu8; 32], [0x5au8; 32]];
    let contacts: [&[u8]; 3] = [b"", b"a", b"self.mynode.net"];
    for &id in IDS.iter() {
        for key in keys.iter() {
            for contact in contacts.iter() {
                let bytes = Subscribe::new(id, key, contact).serialize();
                assert_eq!(bytes[0], packet_type::SUBSCRIBE);
                let back = Subscribe::deserialize(&bytes[1..]).unwrap();
                assert_eq!(back.partnering_id(), id);
                assert_eq!(back.key(), &key[..]);
                assert_eq!(back.contact_method(), *contact);
                assert_eq!(back, Subscribe::new(id, key, contact));
            }
        }
    }
}

#[test]
fn subscribe_rejects_short_bodies() {
    let body = [3u8; 36];
    for len in 0..36 {
        assert_eq!(Subscribe::deserialize(&body[..len]).unwrap_err(), HandleError::PacketTruncated);
    }
    let m = Subscribe::deserialize(&body).unwrap();
    assert_eq!(m.partnering_id(), 0x0303_0303);
    assert!(m.contact_method().is_empty());
}

#[test]
fn profile_request_layout() {
    let m = ProfileRequest { token: 0x0102_0304, start_index: 5, requested_len: 3 };
    assert_eq!(m.serialize(), vec![8, 4, 3, 2, 1, 5, 0, 0, 0, 0, 0, 0]);
    let m = ProfileRequest { token: 1, start_index: u32::MAX, requested_len: 0 };
    assert_eq!(m.serialize(), vec![8, 1, 0, 0, 0, 0xff, 0xff, 0xff, 0xff]);
}

#[test]
fn partner_list_request_layout() {
    let m = PartnerListRequest { token: 0x0102_0304, start_index: 5, requested_len: 2 };
    assert_eq!(m.serialize(), vec![10, 4, 3, 2, 1, 5, 0, 0, 0, 0, 0]);
}

#[test]
fn requests_take_their_length_from_the_padding() {
    // What the padding holds does not matter, only how long it is.
    let body = [9u8, 0, 0, 0, 2, 1, 0, 0, 0xaa, 0xbb, 0xcc, 0xdd, 0xee];
    assert_eq!(
        ProfileRequest::deserialize(&body),
        Ok(ProfileRequest { token: 9, start_index: 258, requested_len: 5 })
    );
    assert_eq!(
        PartnerListRequest::deserialize(&body),
        Ok(PartnerListRequest { token: 9, start_index: 258, requested_len: 5 })
    );
    assert_eq!(
        ProfileRequest::deserialize(&body[..8]),
        Ok(ProfileRequest { token: 9, start_index: 258, requested_len: 0 })
    );
}

#[test]
fn requests_reject_short_bodies() {
    let body = [1u8; 8];
    for len in 0..8 {
        assert_eq!(ProfileRequest::deserialize(&body[..len]), Err(HandleError::PacketTruncated));
        assert_eq!(
            PartnerListRequest::deserialize(&body[..len]),
            Err(HandleError::PacketTruncated)
        );
    }
}

#[test]
fn requests_round_trip() {
    for &token in IDS.iter() {
        for &start_index in IDS.iter() {
            for &requested_len in [0usize, 1, 17, 1000].iter() {
                let m = ProfileRequest { token, start_index, requested_len };
                let bytes = m.serialize();
                assert_eq!(bytes.len(), 9 + requested_len);
                assert_eq!(bytes[0], packet_type::PROFILE_REQUEST);
                assert!(bytes[9..].iter().all(|b| *b == 0));
                assert_eq!(ProfileRequest::deserialize(&bytes[1..]), Ok(m));

                let m = PartnerListRequest { token, start_index, requested_len };
                let bytes = m.serialize();
                assert_eq!(bytes.len(), 9 + requested_len);
                assert_eq!(bytes[0], packet_type::PARTNER_LIST_REQUEST);
                assert_eq!(PartnerListRequest::deserialize(&bytes[1..]), Ok(m));
            }
        }
    }
}

#[test]
fn responses_layout() {
    let m = ProfileResponse { token: 0x0102_0304, slice: b"abc" };
    assert_eq!(m.serialize(), vec![9, 4, 3, 2, 1, b'a', b'b', b'c']);
    let m = PartnerListResponse { token: 0x0102_0304, slice: b"abc" };
    assert_eq!(m.serialize(), vec![11, 4, 3, 2, 1, b'a', b'b', b'c']);
    let m = ProfileResponse { token: 0, slice: b"" };
    assert_eq!(m.serialize(), vec![9, 0, 0, 0, 0]);
}

#[test]
fn responses_round_trip() {
    let slices: [&[u8]; 3] = [b"", b"\0", b"some profile bytes"];
    for &token in IDS.iter() {
        for slice in slices.iter() {
            let m = ProfileResponse { token, slice };
            let bytes = m.serialize();
            assert_eq!(bytes[0], packet_type::PROFILE_RESPONSE);
            assert_eq!(ProfileResponse::deserialize(&bytes[1..]), Ok(m));

            let m = PartnerListResponse { token, slice };
            let bytes = m.serialize();
            assert_eq!(bytes[0], packet_type::PARTNER_LIST_RESPONSE);
            assert_eq!(PartnerListResponse::deserialize(&bytes[1..]), Ok(m));
        }
    }
}

#[test]
fn responses_reject_short_bodies() {
    let body = [1u8; 4];
    for len in 0..4 {
        assert_eq!(ProfileResponse::deserialize(&body[..len]), Err(HandleError::PacketTruncated));
        assert_eq!(
            PartnerListResponse::deserialize(&body[..len]),
            Err(HandleError::PacketTruncated)
        );
    }
    assert_eq!(
        ProfileResponse::deserialize(&body),
        Ok(ProfileResponse { token: 0x0101_0101, slice: b"" })
    );
}
