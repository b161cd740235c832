//! Helpers at the edge of the engine: host account names, host balances,
//! addresses in text form.

use crate::address::Address;
use crate::hash::{rlp_address_and_number, rlp_encode_address_and_number};
use crate::word::{be_u64, limb_be, Word};
use vstd::prelude::*;
use vstd::string::StringSliceAdditionalSpecFns;

verus! {

/// The Keccak-256 digest of a byte string, as `keccak_hash` computes it.
pub uninterp spec fn keccak(data: Seq<u8>) -> Seq<u8>;

/// `keccak` of `keccak_hash`: the Keccak-256 digest of `data`, which has 32
/// bytes.
#[verifier::external_body]
fn keccak_digest(data: &[u8]) -> (r: Vec<u8>)
    ensures
        r@ == keccak(data@),
        r@.len() == 32,
{
    keccak_hash::keccak(data).0.to_vec()
}

/// The error of `hex::decode`.
#[verifier::external_type_specification]
#[verifier::external_body]
pub struct ExFromHexError(hex::FromHexError);

/// The bytes that a text spells in hexadecimal, where it spells any.
pub uninterp spec fn hex_decoded(text: Seq<char>) -> Option<Seq<u8>>;

/// `hex::decode`: the bytes that `text` spells in hexadecimal, or an error
/// where it spells none.
#[verifier::external_body]
fn hex_decode(text: &str) -> (r: Result<Vec<u8>, hex::FromHexError>)
    ensures
        match r {
            Ok(v) => hex_decoded(text@) == Some(v@),
            Err(_) => hex_decoded(text@) is None,
        },
{
    hex::decode(text)
}

/// The prefix of the keys under which the storage of a contract is kept:
/// the text `_storage`, then the address.
pub open spec fn storage_prefix(contract_address: Seq<u8>) -> Seq<u8> {
    seq![0x5fu8, 0x73u8, 0x74u8, 0x6fu8, 0x72u8, 0x61u8, 0x67u8, 0x65u8] + contract_address
}

/// The prefix of the keys under which the storage of a contract is kept.
pub fn prefix_for_contract_storage(contract_address: &[u8]) -> (r: Vec<u8>)
    ensures
        r@ == storage_prefix(contract_address@),
{
    let mut prefix: Vec<u8> = Vec::new();
    prefix.push(0x5f);
    prefix.push(0x73);
    prefix.push(0x74);
    prefix.push(0x6f);
    prefix.push(0x72);
    prefix.push(0x61);
    prefix.push(0x67);
    prefix.push(0x65);
    let mut rest = crate::account::copy_bytes(contract_address);
    prefix.append(&mut rest);
    assert(prefix@ =~= storage_prefix(contract_address@));
    prefix
}

/// The 20 bytes of an address.
pub fn evm_account_to_internal_address(addr: Address) -> (r: [u8; 20])
    ensures
        r@ == addr.be_bytes(),
{
    addr.to_bytes()
}

/// The address of a host account: the last 20 bytes of the Keccak-256
/// digest of its name.
pub open spec fn host_account_address(name: Seq<u8>) -> Address {
    Address::from_be(keccak(name).subrange(12, 32))
}

/// The address of the host account with the name `addr`.
pub fn near_account_bytes_to_evm_address(addr: &[u8]) -> (r: Address)
    ensures
        r == host_account_address(addr@),
{
    let digest = keccak_digest(addr);
    Address::from_slice_at(&digest, 12)
}

/// The address of the host account with the name `account_id`.
pub fn near_account_id_to_evm_address(account_id: &str) -> (r: Address)
    ensures
        r == host_account_address(account_id.spec_bytes()),
{
    near_account_bytes_to_evm_address(account_id.as_bytes())
}

/// The 20 bytes of the address of the host account with the name
/// `account_id`.
pub fn near_account_id_to_internal_address(account_id: &str) -> (r: [u8; 20])
    ensures
        r@ == host_account_address(account_id.spec_bytes()).be_bytes(),
{
    evm_account_to_internal_address(near_account_id_to_evm_address(account_id))
}

/// The address that `address` spells in hexadecimal: `None` where the text
/// is no hexadecimal or does not spell 20 bytes.
pub fn hex_to_evm_address(address: &str) -> (r: Option<Address>)
    ensures
        r == match hex_decoded(address@) {
            Some(bytes) => if bytes.len() == 20 {
                Some(Address::from_be(bytes))
            } else {
                None
            },
            None => None,
        },
{
    match hex_decode(address) {
        Ok(bytes) => {
            if bytes.len() == 20 {
                assert(bytes@.subrange(0, 20) =~= bytes@);
                Some(Address::from_slice_at(&bytes, 0))
            } else {
                None
            }
        },
        Err(_) => None,
    }
}

/// A balance of the host chain.
#[derive(Clone, Copy, Debug, PartialEq, Eq, Structural)]
pub struct Balance(pub u128);

/// The number that 16 bytes spell, most significant byte first.
pub open spec fn be_u128(s: Seq<u8>) -> int
    recommends
        s.len() == 16,
{
    be_u64(s.subrange(0, 8)) * 0x1_0000_0000_0000_0000 + be_u64(s.subrange(8, 16))
}

impl Balance {
    /// The 16 big-endian bytes of the balance.
    pub open spec fn be_bytes(self) -> Seq<u8> {
        limb_be((self.0 / 0x1_0000_0000_0000_0000) as u64) + limb_be(
            (self.0 % 0x1_0000_0000_0000_0000) as u64,
        )
    }

    /// The balance that 16 big-endian bytes spell.
    pub fn from_be_bytes(bytes: [u8; 16]) -> (r: Self)
        ensures
            r.0 == be_u128(bytes@),
    {
        let hi = crate::word::pack_u64(
            bytes[0],
            bytes[1],
            bytes[2],
            bytes[3],
            bytes[4],
            bytes[5],
            bytes[6],
            bytes[7],
        );
        let lo = crate::word::pack_u64(
            bytes[8],
            bytes[9],
            bytes[10],
            bytes[11],
            bytes[12],
            bytes[13],
            bytes[14],
            bytes[15],
        );
        proof {
            let s = bytes@;
            assert(s.subrange(0, 8) =~= seq![s[0], s[1], s[2], s[3], s[4], s[5], s[6], s[7]]);
            assert(s.subrange(8, 16) =~= seq![s[8], s[9], s[10], s[11], s[12], s[13], s[14], s[15]]);
        }
        let v: u128 = ((hi as u128) << 64) | (lo as u128);
        assert(v == hi * 0x1_0000_0000_0000_0000 + lo) by (bit_vector)
            requires
                v == ((hi as u128) << 64) | (lo as u128),
        ;
        Balance(v)
    }

    /// The 16 big-endian bytes of the balance.
    pub fn to_be_bytes(&self) -> (r: [u8; 16])
        ensures
            r@ == self.be_bytes(),
    {
        let value: u128 = self.0;
        let hi: u64 = (value >> 64) as u64;
        let lo: u64 = (value & 0xffff_ffff_ffff_ffff) as u64;
        assert(hi == value / 0x1_0000_0000_0000_0000 && lo == value % 0x1_0000_0000_0000_0000)
            by (bit_vector)
            requires
                hi == (value >> 64) as u64,
                lo == (value & 0xffff_ffff_ffff_ffff) as u64,
        ;
        let mut out: Vec<u8> = Vec::new();
        crate::word::unpack_u64(hi, &mut out);
        assert(out@ =~= limb_be(hi));
        crate::word::unpack_u64(lo, &mut out);
        let mut a = [0u8; 16];
        let mut i: usize = 0;
        while i < 16
            invariant
                i <= 16,
                out.len() == 16,
                forall|j: int| 0 <= j < i ==> a@[j] == out@[j],
            decreases 16 - i,
        {
            a[i] = out[i];
            i = i + 1;
        }
        assert(a@ =~= out@);
        a
    }

    /// The balance as a number.
    pub fn value(&self) -> (r: u128)
        ensures
            r == self.0,
    {
        self.0
    }
}

/// Reading the bytes of a balance gives the balance back.
pub proof fn lemma_balance_round_trip(b: Balance)
    ensures
        be_u128(b.be_bytes()) == b.0,
{
    let hi = (b.0 / 0x1_0000_0000_0000_0000) as u64;
    let lo = (b.0 % 0x1_0000_0000_0000_0000) as u64;
    let s = b.be_bytes();
    assert(s.subrange(0, 8) =~= limb_be(hi));
    assert(s.subrange(8, 16) =~= limb_be(lo));
    crate::word::lemma_limb_bytes_spell(hi);
    crate::word::lemma_limb_bytes_spell(lo);
}

/// The deposit attached to a call, as a word; `None` where nothing is
/// attached.
pub fn attached_deposit_as_u256_opt(attached: u128) -> (r: Option<Word>)
    ensures
        attached == 0 ==> r is None,
        attached != 0 ==> r is Some && r->0.value() == attached,
{
    if attached == 0 {
        None
    } else {
        Some(balance_to_u256(&Balance(attached)))
    }
}

/// The word that stands for a balance.
pub fn balance_to_u256(val: &Balance) -> (r: Word)
    ensures
        r.value() == val.0,
{
    Word::from_u128(val.0)
}

/// The balance in the low 128 bits of a word; the bits above are dropped.
pub fn u256_to_balance(val: &Word) -> (r: Balance)
    ensures
        r.0 == val.value() % 0x1_0000_0000_0000_0000_0000_0000_0000_0000nat,
{
    let l1: u64 = val.l1;
    let l0: u64 = val.l0;
    let v: u128 = ((l1 as u128) << 64) | (l0 as u128);
    assert(v == l1 * 0x1_0000_0000_0000_0000 + l0) by (bit_vector)
        requires
            v == ((l1 as u128) << 64) | (l0 as u128),
    ;
    proof {
        let high: int = val.l2 + 0x1_0000_0000_0000_0000int * val.l3;
        assert(val.value() == 0x1_0000_0000_0000_0000_0000_0000_0000_0000int * high + v);
        vstd::arithmetic::div_mod::lemma_fundamental_div_mod_converse(
            val.value() as int,
            0x1_0000_0000_0000_0000_0000_0000_0000_0000int,
            high,
            v as int,
        );
    }
    Balance(v)
}

/// How the address of a new contract is derived.
#[derive(Clone, Copy, Debug, PartialEq, Eq, Structural)]
pub enum CreateContractAddress {
    /// From the sender and its nonce.
    FromSenderAndNonce,
    /// From the sender, a salt and the hash of the code.
    FromSenderSaltAndCodeHash(Word),
    /// From the sender and the hash of the code.
    FromSenderAndCodeHash,
}

/// The address of a new contract and, where the scheme uses it, the hash of
/// the code: the last 20 bytes of the Keccak-256 digest of the RLP list of
/// sender and nonce; of `0xff`, the sender, the salt and the code's digest;
/// or of the sender and the code's digest.
pub open spec fn contract_address(scheme: CreateContractAddress, sender: Address, nonce: Word, code: Seq<u8>) -> (
    Address,
    Option<Word>,
) {
    match scheme {
        CreateContractAddress::FromSenderAndNonce => (
            Address::from_be(
                keccak(rlp_address_and_number(sender.be_bytes(), nonce.be_bytes())).subrange(12, 32),
            ),
            None,
        ),
        CreateContractAddress::FromSenderSaltAndCodeHash(salt) => (
            Address::from_be(
                keccak(seq![0xffu8] + sender.be_bytes() + salt.be_bytes() + keccak(code)).subrange(
                    12,
                    32,
                ),
            ),
            Some(Word::from_be(keccak(code))),
        ),
        CreateContractAddress::FromSenderAndCodeHash => (
            Address::from_be(keccak(sender.be_bytes() + keccak(code)).subrange(12, 32)),
            Some(Word::from_be(keccak(code))),
        ),
    }
}

/// The address of a new contract under `address_scheme`.
pub fn evm_contract_address(address_scheme: CreateContractAddress, sender: &Address, nonce: &Word, code: &[u8]) -> (r:
    (Address, Option<Word>))
    ensures
        r == contract_address(address_scheme, *sender, *nonce, code@),
{
    match address_scheme {
        CreateContractAddress::FromSenderAndNonce => {
            let encoded = rlp_encode_address_and_number(&sender.to_bytes(), &nonce.to_big_endian());
            let digest = keccak_digest(encoded.as_slice());
            (Address::from_slice_at(&digest, 12), None)
        },
        CreateContractAddress::FromSenderSaltAndCodeHash(salt) => {
            let code_hash = keccak_digest(code);
            let mut buffer: Vec<u8> = Vec::new();
            buffer.push(0xff);
            let mut part = sender.to_be_vec();
            buffer.append(&mut part);
            let mut part = salt.to_be_vec();
            buffer.append(&mut part);
            let mut part = crate::account::copy_bytes(code_hash.as_slice());
            buffer.append(&mut part);
            assert(buffer@ =~= seq![0xffu8] + sender.be_bytes() + salt.be_bytes() + keccak(code@));
            let digest = keccak_digest(buffer.as_slice());
            (Address::from_slice_at(&digest, 12), Some(Word::from_be_vec(&code_hash)))
        },
        CreateContractAddress::FromSenderAndCodeHash => {
            let code_hash = keccak_digest(code);
            let mut buffer = sender.to_be_vec();
            let mut part = crate::account::copy_bytes(code_hash.as_slice());
            buffer.append(&mut part);
            assert(buffer@ =~= sender.be_bytes() + keccak(code@));
            let digest = keccak_digest(buffer.as_slice());
            (Address::from_slice_at(&digest, 12), Some(Word::from_be_vec(&code_hash)))
        },
    }
}

} // verus!
