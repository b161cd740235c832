//! 20-byte account addresses.

use crate::word::{be_u32, be_u64, limb_be, limb_be4, Word};
use crate::word::{lemma_limb4_bytes_spell, lemma_limb_bytes_spell};
use crate::word::{lemma_spelled_limb4_bytes, lemma_spelled_limb_bytes};
use vstd::prelude::*;

verus! {

/// A 20-byte account identifier, held as a 160-bit number in three limbs
/// (`a0` the least significant). Addresses are ordered by that number, which
/// is the order of their big-endian bytes.
#[derive(Clone, Copy, Debug, PartialEq, Eq, Structural, Hash)]
pub struct Address {
    pub a2: u32,
    pub a1: u64,
    pub a0: u64,
}

impl Address {
    /// The 160-bit number this address stands for.
    pub open spec fn value(self) -> nat {
        (self.a0 + 0x1_0000_0000_0000_0000nat * (self.a1 + 0x1_0000_0000_0000_0000nat * self.a2)) as nat
    }

    /// The 20 bytes of the address.
    pub open spec fn be_bytes(self) -> Seq<u8> {
        limb_be4(self.a2) + limb_be(self.a1) + limb_be(self.a0)
    }

    /// The address whose 20 bytes are `s`.
    pub open spec fn from_be(s: Seq<u8>) -> Address
        recommends
            s.len() == 20,
    {
        Address {
            a2: be_u32(s.subrange(0, 4)) as u32,
            a1: be_u64(s.subrange(4, 12)) as u64,
            a0: be_u64(s.subrange(12, 20)) as u64,
        }
    }

    /// The word whose low 160 bits are the address and whose high 96 bits
    /// are zero.
    pub open spec fn spec_to_word(self) -> Word {
        Word { l3: 0, l2: self.a2 as u64, l1: self.a1, l0: self.a0 }
    }

    /// The address in the low 160 bits of a word; the high 96 bits are
    /// dropped.
    pub open spec fn spec_from_word(w: Word) -> Address {
        Address { a2: (w.l2 % 0x1_0000_0000) as u32, a1: w.l1, a0: w.l0 }
    }

    pub open spec fn spec_zero() -> Address {
        Address { a2: 0, a1: 0, a0: 0 }
    }

    /// The all-zero address.
    #[verifier::when_used_as_spec(spec_zero)]
    pub fn zero() -> (r: Address)
        ensures
            r == Address::spec_zero(),
    {
        Address { a2: 0, a1: 0, a0: 0 }
    }

    /// The word that holds this address in its low 160 bits.
    #[verifier::when_used_as_spec(spec_to_word)]
    pub fn to_word(self) -> (r: Word)
        ensures
            r == self.spec_to_word(),
            r.value() == self.value(),
    {
        Word { l3: 0, l2: self.a2 as u64, l1: self.a1, l0: self.a0 }
    }

    /// The address held in the low 160 bits of `w`.
    #[verifier::when_used_as_spec(spec_from_word)]
    pub fn from_word(w: Word) -> (r: Address)
        ensures
            r == Address::spec_from_word(w),
    {
        let l2: u64 = w.l2;
        let a2: u32 = (l2 & 0xffff_ffff) as u32;
        assert(l2 & 0xffff_ffff == l2 % 0x1_0000_0000) by (bit_vector);
        Address { a2, a1: w.l1, a0: w.l0 }
    }

    /// Whether `self` comes before `other`.
    pub fn lt(&self, other: &Address) -> (r: bool)
        ensures
            r == (self.value() < other.value()),
    {
        if self.a2 != other.a2 {
            self.a2 < other.a2
        } else if self.a1 != other.a1 {
            self.a1 < other.a1
        } else {
            self.a0 < other.a0
        }
    }

    /// The address from its 20 bytes.
    pub fn from_bytes(bytes: &[u8; 20]) -> (r: Address)
        ensures
            r == Address::from_be(bytes@),
    {
        let a2 = crate::word::pack_u32(bytes[0], bytes[1], bytes[2], bytes[3]);
        let a1 = crate::word::pack_u64(
            bytes[4],
            bytes[5],
            bytes[6],
            bytes[7],
            bytes[8],
            bytes[9],
            bytes[10],
            bytes[11],
        );
        let a0 = crate::word::pack_u64(
            bytes[12],
            bytes[13],
            bytes[14],
            bytes[15],
            bytes[16],
            bytes[17],
            bytes[18],
            bytes[19],
        );
        proof {
            let s = bytes@;
            assert(s.subrange(0, 4) =~= seq![s[0], s[1], s[2], s[3]]);
            assert(s.subrange(4, 12) =~= seq![s[4], s[5], s[6], s[7], s[8], s[9], s[10], s[11]]);
            assert(s.subrange(12, 20) =~= seq![
                s[12],
                s[13],
                s[14],
                s[15],
                s[16],
                s[17],
                s[18],
                s[19],
            ]);
        }
        Address { a2, a1, a0 }
    }

    /// The address spelled by bytes `at..at + 20` of `bytes`.
    pub fn from_slice_at(bytes: &Vec<u8>, at: usize) -> (r: Address)
        requires
            at + 20 <= bytes.len(),
        ensures
            r == Address::from_be(bytes@.subrange(at as int, at + 20)),
    {
        let mut a = [0u8; 20];
        let mut i: usize = 0;
        while i < 20
            invariant
                i <= 20,
                at + 20 <= bytes.len(),
                forall|j: int| 0 <= j < i ==> a@[j] == bytes@[at + j],
            decreases 20 - i,
        {
            a[i] = bytes[at + i];
            i = i + 1;
        }
        assert(a@ =~= bytes@.subrange(at as int, at + 20));
        Address::from_bytes(&a)
    }

    /// The 20 bytes of the address, as a vector.
    pub fn to_be_vec(&self) -> (r: Vec<u8>)
        ensures
            r@ == self.be_bytes(),
            r.len() == 20,
    {
        let mut out: Vec<u8> = Vec::new();
        crate::word::unpack_u32(self.a2, &mut out);
        assert(out@ =~= limb_be4(self.a2));
        crate::word::unpack_u64(self.a1, &mut out);
        crate::word::unpack_u64(self.a0, &mut out);
        out
    }

    /// The 20 bytes of the address.
    pub fn to_bytes(&self) -> (r: [u8; 20])
        ensures
            r@ == self.be_bytes(),
    {
        let v = self.to_be_vec();
        let mut a = [0u8; 20];
        let mut i: usize = 0;
        while i < 20
            invariant
                i <= 20,
                v.len() == 20,
                forall|j: int| 0 <= j < i ==> a@[j] == v@[j],
            decreases 20 - i,
        {
            a[i] = v[i];
            i = i + 1;
        }
        assert(a@ =~= v@);
        a
    }
}

/// Reading the 20 bytes of an address gives the address back, and an address
/// survives the trip through a word.
pub proof fn lemma_address_round_trip(a: Address)
    ensures
        a.be_bytes().len() == 20,
        Address::from_be(a.be_bytes()) == a,
        Address::spec_from_word(a.spec_to_word()) == a,
{
    let s = a.be_bytes();
    assert(s.subrange(0, 4) =~= limb_be4(a.a2));
    assert(s.subrange(4, 12) =~= limb_be(a.a1));
    assert(s.subrange(12, 20) =~= limb_be(a.a0));
    lemma_limb4_bytes_spell(a.a2);
    lemma_limb_bytes_spell(a.a1);
    lemma_limb_bytes_spell(a.a0);
}

/// Writing the address read from 20 bytes gives the 20 bytes back.
pub proof fn lemma_address_bytes_round_trip(s: Seq<u8>)
    requires
        s.len() == 20,
    ensures
        Address::from_be(s).be_bytes() == s,
{
    lemma_spelled_limb4_bytes(s.subrange(0, 4));
    lemma_spelled_limb_bytes(s.subrange(4, 12));
    lemma_spelled_limb_bytes(s.subrange(12, 20));
    assert(Address::from_be(s).be_bytes() =~= s);
}

/// Two addresses with the same number are the same address.
pub proof fn lemma_address_value_injective(a: Address, b: Address)
    requires
        a.value() == b.value(),
    ensures
        a == b,
{
    let base: int = 0x1_0000_0000_0000_0000;
    let ha: int = a.a1 + base * a.a2;
    let hb: int = b.a1 + base * b.a2;
    assert(base * ha == ha * base) by (nonlinear_arith);
    assert(base * hb == hb * base) by (nonlinear_arith);
    assert(base * a.a2 == a.a2 * base) by (nonlinear_arith);
    assert(base * b.a2 == b.a2 * base) by (nonlinear_arith);
    vstd::arithmetic::div_mod::lemma_fundamental_div_mod_converse(a.value() as int, base, ha, a.a0 as int);
    vstd::arithmetic::div_mod::lemma_fundamental_div_mod_converse(b.value() as int, base, hb, b.a0 as int);
    vstd::arithmetic::div_mod::lemma_fundamental_div_mod_converse(ha, base, a.a2 as int, a.a1 as int);
    vstd::arithmetic::div_mod::lemma_fundamental_div_mod_converse(hb, base, b.a2 as int, b.a1 as int);
}

} // verus!
