use partnering::data::{DataSerializer, BODY_OFFSET, CODE_OFFSET, ID_OFFSET};

// The test vector of RFC 7539, section 2.5.2.
const RFC_KEY: [u8; 32] = [
    0x85, 0xd6, 0xbe, 0x78, 0x57, 0x55, 0x6d, 0x33, 0x7f, 0x44, 0x52, 0xfe, 0x42, 0xd5, 0x06, 0xa8,
    0x01, 0x03, 0x80, 0x8a, 0xfb, 0x0d, 0xb2, 0xfd, 0x4a, 0xbf, 0xf6, 0xaf, 0x41, 0x49, 0xf5, 0x1b,
];
const RFC_MESSAGE: &[u8] = b"Cryptographic Forum Research Group";
const RFC_CODE: [u8; 16] = [
    0xa8, 0x06, 0x1d, 0xc1, 0x30, 0x51, 0x36, 0xc6, 0xc2, 0x2b, 0x8b, 0xaf, 0x0c, 0x01, 0x27, 0xa9,
];

#[test]
fn offsets_follow_the_layout() {
    assert_eq!(ID_OFFSET, 1);
    assert_eq!(CODE_OFFSET, 1 + 4);
    assert_eq!(BODY_OFFSET, 1 + 4 + 16);
}

#[test]
fn code_covers_sequence_number_and_payload() {
    // The first four bytes of the message stand as the sequence number, the
    // rest as the payload: together they are what the code is made over.
    let sequence_number = u32::from_le_bytes([b'C', b'r', b'y', b'p']);
    let mut serializer = DataSerializer::new(sequence_number, &RFC_MESSAGE[4..]);
    let packet = serializer.serialize_for(0x0102_0304, &RFC_KEY);
    assert_eq!(packet.len(), 21 + RFC_MESSAGE.len());
    assert_eq!(packet[0], 5);
    assert_eq!(&packet[1..5], &[4, 3, 2, 1][..]);
    assert_eq!(&packet[5..21], &RFC_CODE[..]);
    assert_eq!(&packet[21..], RFC_MESSAGE);
}

#[test]
fn empty_payload_is_framed() {
    let mut serializer = DataSerializer::new(7, b"");
    let packet = serializer.serialize_for(0, &[0u8; 32]);
    assert_eq!(packet.len(), 25);
    assert_eq!(packet[0], 5);
    assert_eq!(&packet[1..5], &[0, 0, 0, 0][..]);
    assert_eq!(&packet[21..25], &[7, 0, 0, 0][..]);
}

#[test]
fn recipients_share_the_body_and_differ_in_the_code() {
    let mut key_a = [0u8; 32];
    let mut key_b = [0u8; 32];
    for i in 0..32 {
        key_a[i] = i as u8 + 1;
        key_b[i] = 200 - i as u8;
    }
    let mut serializer = DataSerializer::new(0xaabb_ccdd, b"the same payload for everyone");
    let for_a = serializer.serialize_for(11, &key_a).to_vec();
    let for_b = serializer.serialize_for(22, &key_b).to_vec();
    assert_eq!(&for_a[21..], &for_b[21..]);
    assert_eq!(&for_a[21..25], &[0xdd, 0xcc, 0xbb, 0xaa][..]);
    assert_eq!(&for_a[25..], &b"the same payload for everyone"[..]);
    assert_eq!(&for_a[1..5], &[11, 0, 0, 0][..]);
    assert_eq!(&for_b[1..5], &[22, 0, 0, 0][..]);
    assert_ne!(&for_a[5..21], &for_b[5..21]);
}

#[test]
fn addressing_again_forgets_the_recipient_before() {
    let key_a = [3u8; 32];
    let key_b = [4u8; 32];
    let mut used = DataSerializer::new(1, b"payload");
    used.serialize_for(100, &key_a);
    let second = used.serialize_for(200, &key_b).to_vec();
    let mut fresh = DataSerializer::new(1, b"payload");
    let first = fresh.serialize_for(200, &key_b).to_vec();
    assert_eq!(second, first);
    // The same recipient gets the same packet each time.
    let again = used.serialize_for(200, &key_b).to_vec();
    assert_eq!(again, first);
}
