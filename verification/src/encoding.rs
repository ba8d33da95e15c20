//! Byte payloads that the runtime hashes to obtain randomness, produced with
//! the SCALE codec, and little-endian integer decoding.

use vstd::prelude::*;
use parity_scale_codec::Encode;
use byteorder::{ByteOrder, LittleEndian};

verus! {

/// The `n` least significant bytes of `x`, least significant first.
pub open spec fn le_bytes(x: nat, n: nat) -> Seq<u8>
    decreases n,
{
    if n == 0 {
        Seq::empty()
    } else {
        seq![(x % 256) as u8] + le_bytes(x / 256, (n - 1) as nat)
    }
}

/// The number whose little-endian bytes are `s`.
pub open spec fn le_value(s: Seq<u8>) -> nat
    decreases s.len(),
{
    if s.len() == 0 {
        0
    } else {
        s[0] as nat + 256 * le_value(s.drop_first())
    }
}

/// SCALE encoding of a `u32`: four little-endian bytes.
pub open spec fn scale_u32(x: u32) -> Seq<u8> {
    le_bytes(x as nat, 4)
}

/// SCALE encoding of a `u64`: eight little-endian bytes.
pub open spec fn scale_u64(x: u64) -> Seq<u8> {
    le_bytes(x as nat, 8)
}

/// SCALE encoding of an `Option<u32>`: a tag byte, then the value if present.
pub open spec fn scale_option_u32(x: Option<u32>) -> Seq<u8> {
    match x {
        None => seq![0u8],
        Some(v) => seq![1u8] + scale_u32(v),
    }
}

/// `Encode::encode` of parity-scale-codec on the tuple
/// `(random_seed, sender, extrinsic_index, block_number)`.
/// Claimed: a fixed-size byte array encodes as its bytes, `u64` as eight
/// little-endian bytes, `Option<u32>` as a tag byte (0 or 1) followed by the
/// value's four little-endian bytes, and a tuple as the concatenation of its
/// fields' encodings.
#[verifier::external_body]
fn scale_encode_seed_sender_index_block(
    random_seed: [u8; 32],
    sender: u64,
    extrinsic_index: Option<u32>,
    block_number: u64,
) -> (bytes: Vec<u8>)
    ensures
        bytes@ == random_seed@ + scale_u64(sender) + scale_option_u32(extrinsic_index) + scale_u64(
            block_number,
        ),
{
    (random_seed, sender, extrinsic_index, block_number).encode()
}

/// `Encode::encode` of parity-scale-codec on the tuple
/// `(random_seed, sender, nonce)`.
/// Claimed: the seed's 32 bytes, then the eight little-endian bytes of
/// `sender`, then those of `nonce`.
#[verifier::external_body]
fn scale_encode_seed_sender_nonce(random_seed: [u8; 32], sender: u64, nonce: u64) -> (bytes: Vec<
    u8,
>)
    ensures
        bytes@ == random_seed@ + scale_u64(sender) + scale_u64(nonce),
{
    (random_seed, sender, nonce).encode()
}

/// `ByteOrder::read_u128` of byteorder for `LittleEndian`.
/// Claimed: the value of the first sixteen bytes of `buf`, least significant
/// byte first. It panics on a shorter buffer, which `requires` rules out.
#[verifier::external_body]
fn read_u128_little_endian(buf: &[u8]) -> (value: u128)
    requires
        buf@.len() >= 16,
    ensures
        value as nat == le_value(buf@.take(16)),
{
    LittleEndian::read_u128(buf)
}

/// The bytes that a module hashes with blake2-128 to draw a random value for
/// `sender`: the block's random seed, the sender, the index of the extrinsic
/// in the block and the block number, SCALE-encoded as one tuple.
pub fn random_payload(
    random_seed: [u8; 32],
    sender: u64,
    extrinsic_index: Option<u32>,
    block_number: u64,
) -> (payload: Vec<u8>)
    ensures
        payload@ == random_seed@ + scale_u64(sender) + scale_option_u32(extrinsic_index)
            + scale_u64(block_number),
{
    scale_encode_seed_sender_index_block(random_seed, sender, extrinsic_index, block_number)
}

/// The bytes that a module hashes to derive a fresh identifier: the block's
/// random seed, the sender and the module's nonce, SCALE-encoded as one tuple.
pub fn nonce_payload(random_seed: [u8; 32], sender: u64, nonce: u64) -> (payload: Vec<u8>)
    ensures
        payload@ == random_seed@ + scale_u64(sender) + scale_u64(nonce),
{
    scale_encode_seed_sender_nonce(random_seed, sender, nonce)
}

/// Reads a 128-bit number from sixteen random bytes, least significant byte
/// first.
pub fn u128_from_random(random: &[u8; 16]) -> (value: u128)
    ensures
        value as nat == le_value(random@),
{
    let slice: &[u8] = random.as_slice();
    assert(slice@.take(16) =~= random@);
    read_u128_little_endian(slice)
}

} // verus!
