//! Data datagrams: random payload with the first byte forced to zero.
use crate::codec::{message_kind, Message, FINISH_REQUEST, RESET_REQUEST};
use rand::RngCore;
use rand_xoshiro::Xoroshiro128Plus;
use vstd::prelude::*;

verus! {

#[verifier::external_type_specification]
#[verifier::external_body]
pub struct ExXoroshiro128Plus(Xoroshiro128Plus);

/// Value of the first byte of every data datagram.
pub const DATA_MARKER: u8 = 0;

/// Relies on rand_xoshiro's `RngCore::fill_bytes` for `Xoroshiro128Plus`: it
/// overwrites every byte of the buffer and keeps its length.
#[verifier::external_body]
fn fill_random(rng: &mut Xoroshiro128Plus, buf: &mut Vec<u8>)
    ensures
        final(buf)@.len() == old(buf)@.len(),
{
    rng.fill_bytes(buf.as_mut_slice())
}

/// Frames a payload as a data datagram: the first byte becomes the data
/// marker, the others are kept.
pub fn frame_payload(payload: Vec<u8>) -> (r: Vec<u8>)
    requires
        payload@.len() > 0,
    ensures
        r@ == payload@.update(0, DATA_MARKER),
{
    let mut r = payload;
    r.set(0, DATA_MARKER);
    r
}

/// A data datagram of `packet_size` bytes: random content behind the data
/// marker.
pub fn data_datagram(rng: &mut Xoroshiro128Plus, packet_size: usize) -> (r: Vec<u8>)
    requires
        packet_size > 0,
    ensures
        r@.len() == packet_size,
        r@[0] == DATA_MARKER,
        message_kind(r@) == Message::Data,
{
    let mut buf: Vec<u8> = vec![0u8; packet_size];
    fill_random(rng, &mut buf);
    frame_payload(buf)
}

/// Whatever a payload of at least two bytes holds, once framed its first byte
/// is neither control value, so the receiver counts it as data.
pub proof fn lemma_framed_never_control(payload: Seq<u8>)
    requires
        payload.len() >= 2,
    ensures
        payload.update(0, DATA_MARKER)[0] != RESET_REQUEST,
        payload.update(0, DATA_MARKER)[0] != FINISH_REQUEST,
        message_kind(payload.update(0, DATA_MARKER)) == Message::Data,
{
}

} // verus!
