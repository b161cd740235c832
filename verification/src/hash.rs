//! Hashing and list encoding, as address derivation needs them.

use sha3::Digest;
use vstd::prelude::*;

verus! {

/// The Keccak-256 digest of a byte string.
pub uninterp spec fn keccak256(data: Seq<u8>) -> Seq<u8>;

/// `Keccak256::digest` of `sha3`: the Keccak-256 digest of `data`, which has
/// 32 bytes.
#[verifier::external_body]
pub(crate) fn keccak256_digest(data: &[u8]) -> (r: Vec<u8>)
    ensures
        r@ == keccak256(data@),
        r@.len() == 32,
{
    sha3::Keccak256::digest(data).to_vec()
}

/// A byte string without its leading zero bytes.
pub open spec fn strip_leading_zeros(s: Seq<u8>) -> Seq<u8>
    decreases s.len(),
{
    if s.len() > 0 && s[0] == 0 {
        strip_leading_zeros(s.drop_first())
    } else {
        s
    }
}

/// The RLP encoding of a byte string of at most 55 bytes: a single byte
/// below `0x80` stands for itself; any other string follows a byte that is
/// `0x80` plus its length.
pub open spec fn rlp_short_string(s: Seq<u8>) -> Seq<u8>
    recommends
        s.len() <= 55,
{
    if s.len() == 1 && s[0] < 0x80 {
        s
    } else {
        seq![(0x80 + s.len()) as u8] + s
    }
}

/// The RLP encoding of the list of a 20-byte address and a number given by
/// its 32 big-endian bytes: the payload is the address as a string and the
/// number as a string without leading zeros; it follows a byte that is
/// `0xc0` plus its length.
pub open spec fn rlp_address_and_number(address: Seq<u8>, number: Seq<u8>) -> Seq<u8>
    recommends
        address.len() == 20,
        number.len() == 32,
{
    let payload = rlp_short_string(address) + rlp_short_string(strip_leading_zeros(number));
    seq![(0xc0 + payload.len()) as u8] + payload
}

/// `RlpStream` of `rlp`: a list of two items is begun, an `H160` and a
/// `U256` of `primitive_types` are appended, and the stream is taken out.
/// The result is the RLP encoding of that list.
#[verifier::external_body]
pub(crate) fn rlp_encode_address_and_number(address: &[u8; 20], number: &[u8; 32]) -> (r: Vec<u8>)
    ensures
        r@ == rlp_address_and_number(address@, number@),
{
    let mut stream = rlp::RlpStream::new_list(2);
    stream.append(&primitive_types::H160(*address));
    stream.append(&primitive_types::U256::from_big_endian(number));
    stream.out().to_vec()
}

} // verus!
