//! Data packets, framed once and authenticated for each recipient.
//!
//! A data packet is laid out as the type tag, the recipient's partnering id
//! (4 bytes), a message authentication code (16 bytes), the sequence number
//! (4 bytes) and the payload. The code covers the sequence number and the
//! payload, and is computed under the key of the partnership it is sent on.
//! Only the id and the code differ between recipients, so one buffer serves
//! them all.

use crate::packet_type;
use crate::peel::{rest_after, u32_le_bytes, u32_to_le, zero_padding};
use crate::peel::{push_u32, push_zero_padding};
use crypto::mac::Mac;
use crypto::poly1305::Poly1305;
use vstd::prelude::*;

verus! {

/// The Poly1305 one-time authentication code of `message` under the 32-byte
/// `key`.
pub uninterp spec fn poly1305(key: Seq<u8>, message: Seq<u8>) -> Seq<u8>;

/// Computes a Poly1305 code with `crypto::poly1305::Poly1305`: `new` on the
/// key, one `input` of the whole message, then `raw_result`.
///
/// Trusted: the 16 bytes that come back are a function of the key and the
/// message alone, which `poly1305` names.
#[verifier::external_body]
fn poly1305_code(key: &[u8; 32], message: &[u8]) -> (code: [u8; 16])
    ensures
        code@ == poly1305(key@, message@),
{
    let mut signer = Poly1305::new(&key[..]);
    signer.input(message);
    let mut code = [0u8; 16];
    signer.raw_result(&mut code);
    code
}

/// The offset of the partnering id in a data packet.
pub const ID_OFFSET: usize = 1;

/// The offset of the authentication code in a data packet.
pub const CODE_OFFSET: usize = 5;

/// The offset of the authenticated part, which starts with the sequence
/// number, in a data packet.
pub const BODY_OFFSET: usize = 21;

/// The packet for a payload before it is addressed to anyone: the id and the
/// code are zero.
pub open spec fn unaddressed_packet(sequence_number: u32, payload: Seq<u8>) -> Seq<u8> {
    seq![packet_type::DATA] + zero_padding(20) + u32_to_le(sequence_number) + payload
}

/// The part of a data packet that the code covers: the sequence number and
/// the payload.
pub open spec fn authenticated_part(packet: Seq<u8>) -> Seq<u8> {
    rest_after(packet, BODY_OFFSET as int)
}

/// The 16 bytes of the code of `message` under `key`, as they stand in a
/// packet.
pub open spec fn code_field(key: Seq<u8>, message: Seq<u8>) -> Seq<u8> {
    Seq::new(16, |i: int| poly1305(key, message)[i])
}

/// The packet that `packet` becomes when it is addressed to the partnership
/// `partnering_id` and authenticated under `key`.
pub open spec fn addressed_packet(packet: Seq<u8>, partnering_id: u32, key: Seq<u8>) -> Seq<u8> {
    seq![packet_type::DATA] + u32_to_le(partnering_id) + code_field(key, authenticated_part(packet))
        + authenticated_part(packet)
}

/// Whether `packet` is what a `DataSerializer` holds: the tag, an id, a code
/// and a sequence number are all there. `DataSerializer::new` makes it so and
/// `serialize_for` keeps it so.
pub open spec fn is_data_packet(packet: Seq<u8>) -> bool {
    packet.len() >= 25 && packet[0] == packet_type::DATA
}

/// Replaces the bytes of `buf` from `at` on by `bytes`.
fn overwrite(buf: &mut Vec<u8>, at: usize, bytes: &[u8])
    requires
        at + bytes@.len() <= old(buf)@.len(),
    ensures
        final(buf)@ == old(buf)@.subrange(0, at as int) + bytes@ + rest_after(
            old(buf)@,
            at + bytes@.len(),
        ),
{
    let mut i: usize = 0;
    while i < bytes.len()
        invariant
            i <= bytes@.len(),
            at + bytes@.len() <= old(buf)@.len(),
            buf.len() == old(buf).len(),
            buf@ == old(buf)@.subrange(0, at as int) + bytes@.subrange(0, i as int) + rest_after(
                old(buf)@,
                at + i,
            ),
        decreases bytes@.len() - i,
    {
        buf.set(at + i, bytes[i]);
        i = i + 1;
        assert(buf@ =~= old(buf)@.subrange(0, at as int) + bytes@.subrange(0, i as int)
            + rest_after(old(buf)@, at + i));
    }
    assert(bytes@.subrange(0, i as int) =~= bytes@);
}

/// `DataSerializer` turns a data payload into a data packet, built for sending
/// the same payload to many recipients.
pub struct DataSerializer {
    buf: Vec<u8>,
}

impl View for DataSerializer {
    type V = Seq<u8>;

    /// The packet as it now stands in the buffer.
    closed spec fn view(&self) -> Seq<u8> {
        self.buf@
    }
}

impl DataSerializer {
    /// Frames `payload` under `sequence_number`, addressed to nobody yet.
    pub fn new(sequence_number: u32, payload: &[u8]) -> (s: DataSerializer)
        ensures
            s@ == unaddressed_packet(sequence_number, payload@),
            is_data_packet(s@),
    {
        let mut xs: Vec<u8> = Vec::new();
        xs.push(packet_type::DATA);
        push_zero_padding(&mut xs, 20);
        push_u32(&mut xs, sequence_number);
        xs.extend_from_slice(payload);
        assert(xs@ =~= unaddressed_packet(sequence_number, payload@));
        DataSerializer { buf: xs }
    }

    /// Addresses the packet to the partnership `partnering_id` and
    /// authenticates it under `key`; hands out the whole packet.
    ///
    /// Only the id and the code are written: the sequence number and the
    /// payload stay as they are.
    pub fn serialize_for(&mut self, partnering_id: u32, key: &[u8; 32]) -> (packet: &[u8])
        requires
            is_data_packet(old(self)@),
        ensures
            final(self)@ == addressed_packet(old(self)@, partnering_id, key@),
            authenticated_part(final(self)@) == authenticated_part(old(self)@),
            is_data_packet(final(self)@),
            packet@ == final(self)@,
    {
        let id_bytes = u32_le_bytes(partnering_id);
        overwrite(&mut self.buf, ID_OFFSET, id_bytes.as_slice());
        let body = vstd::slice::slice_subrange(self.buf.as_slice(), BODY_OFFSET, self.buf.len());
        assert(body@ =~= authenticated_part(old(self)@));
        let code = poly1305_code(key, body);
        assert(code@ =~= code_field(key@, authenticated_part(old(self)@)));
        overwrite(&mut self.buf, CODE_OFFSET, code.as_slice());
        assert(self.buf@ =~= addressed_packet(old(self)@, partnering_id, key@));
        assert(authenticated_part(self@) =~= authenticated_part(old(self)@));
        self.buf.as_slice()
    }
}

/// Addressing a packet again forgets the recipient before: whatever the
/// buffer was addressed to, the next recipient gets the packet it would have
/// got from a fresh buffer, with the same sequence number and payload.
pub proof fn lemma_addressing_is_independent(
    packet: Seq<u8>,
    id_a: u32,
    key_a: Seq<u8>,
    id_b: u32,
    key_b: Seq<u8>,
)
    requires
        is_data_packet(packet),
    ensures
        authenticated_part(addressed_packet(packet, id_a, key_a)) == authenticated_part(packet),
        authenticated_part(addressed_packet(packet, id_b, key_b)) == authenticated_part(packet),
        addressed_packet(addressed_packet(packet, id_a, key_a), id_b, key_b) == addressed_packet(
            packet,
            id_b,
            key_b,
        ),
{
    let first = addressed_packet(packet, id_a, key_a);
    assert(authenticated_part(first) =~= authenticated_part(packet));
    assert(authenticated_part(addressed_packet(packet, id_b, key_b)) =~= authenticated_part(
        packet,
    ));
}

} // verus!
