//! Value primitives: 256-bit words and 20-byte addresses.
//!
//! A `Word` is modelled by the natural number `value()` below `modulus()`; an
//! `Address` by a natural number below `2^160`. Both have a 32-byte (20-byte)
//! big-endian wire form.

use vstd::prelude::*;

verus! {

/// `2^64`.
pub open spec fn limb_base() -> nat {
    0x1_0000_0000_0000_0000
}

/// `2^256`, one more than the largest word.
pub open spec fn modulus() -> nat {
    0x1_0000_0000_0000_0000_0000_0000_0000_0000_0000_0000_0000_0000_0000_0000_0000_0000nat
}

/// `2^255`, the least word that is negative when read as two's complement.
pub open spec fn sign_bit() -> nat {
    0x8000_0000_0000_0000_0000_0000_0000_0000_0000_0000_0000_0000_0000_0000_0000_0000nat
}

/// The number that eight bytes spell, most significant byte first.
pub open spec fn be_u64(s: Seq<u8>) -> int
    recommends
        s.len() == 8,
{
    s[0] * 0x100_0000_0000_0000 + s[1] * 0x1_0000_0000_0000 + s[2] * 0x100_0000_0000 + s[3]
        * 0x1_0000_0000 + s[4] * 0x100_0000 + s[5] * 0x1_0000 + s[6] * 0x100 + s[7]
}

/// The eight bytes of a limb, most significant first.
pub open spec fn limb_be(x: u64) -> Seq<u8> {
    seq![
        ((x / 0x100_0000_0000_0000) % 256) as u8,
        ((x / 0x1_0000_0000_0000) % 256) as u8,
        ((x / 0x100_0000_0000) % 256) as u8,
        ((x / 0x1_0000_0000) % 256) as u8,
        ((x / 0x100_0000) % 256) as u8,
        ((x / 0x1_0000) % 256) as u8,
        ((x / 0x100) % 256) as u8,
        (x % 256) as u8,
    ]
}

/// The four low bytes of a limb, most significant first.
pub open spec fn limb_be4(x: u32) -> Seq<u8> {
    seq![
        ((x / 0x100_0000) % 256) as u8,
        ((x / 0x1_0000) % 256) as u8,
        ((x / 0x100) % 256) as u8,
        (x % 256) as u8,
    ]
}

/// The number that four bytes spell, most significant byte first.
pub open spec fn be_u32(s: Seq<u8>) -> int
    recommends
        s.len() == 4,
{
    s[0] * 0x100_0000 + s[1] * 0x1_0000 + s[2] * 0x100 + s[3]
}

pub(crate) fn pack_u64(b0: u8, b1: u8, b2: u8, b3: u8, b4: u8, b5: u8, b6: u8, b7: u8) -> (r: u64)
    ensures
        r == be_u64(seq![b0, b1, b2, b3, b4, b5, b6, b7]),
{
    let r: u64 = ((b0 as u64) << 56) | ((b1 as u64) << 48) | ((b2 as u64) << 40) | ((b3 as u64)
        << 32) | ((b4 as u64) << 24) | ((b5 as u64) << 16) | ((b6 as u64) << 8) | (b7 as u64);
    assert(r == b0 * 0x100_0000_0000_0000 + b1 * 0x1_0000_0000_0000 + b2 * 0x100_0000_0000 + b3
        * 0x1_0000_0000 + b4 * 0x100_0000 + b5 * 0x1_0000 + b6 * 0x100 + b7) by (bit_vector)
        requires
            r == ((b0 as u64) << 56) | ((b1 as u64) << 48) | ((b2 as u64) << 40) | ((b3 as u64)
                << 32) | ((b4 as u64) << 24) | ((b5 as u64) << 16) | ((b6 as u64) << 8) | (
            b7 as u64),
    ;
    r
}

pub(crate) fn pack_u32(b0: u8, b1: u8, b2: u8, b3: u8) -> (r: u32)
    ensures
        r == be_u32(seq![b0, b1, b2, b3]),
{
    let r: u32 = ((b0 as u32) << 24) | ((b1 as u32) << 16) | ((b2 as u32) << 8) | (b3 as u32);
    assert(r == b0 * 0x100_0000 + b1 * 0x1_0000 + b2 * 0x100 + b3) by (bit_vector)
        requires
            r == ((b0 as u32) << 24) | ((b1 as u32) << 16) | ((b2 as u32) << 8) | (b3 as u32),
    ;
    r
}

/// Appends the eight big-endian bytes of `x` to `out`.
pub(crate) fn unpack_u64(x: u64, out: &mut Vec<u8>)
    ensures
        final(out)@ == old(out)@ + limb_be(x),
{
    let b0: u8 = (x >> 56) as u8;
    let b1: u8 = ((x >> 48) & 0xff) as u8;
    let b2: u8 = ((x >> 40) & 0xff) as u8;
    let b3: u8 = ((x >> 32) & 0xff) as u8;
    let b4: u8 = ((x >> 24) & 0xff) as u8;
    let b5: u8 = ((x >> 16) & 0xff) as u8;
    let b6: u8 = ((x >> 8) & 0xff) as u8;
    let b7: u8 = (x & 0xff) as u8;
    assert(b0 == (x / 0x100_0000_0000_0000) % 256 && b1 == (x / 0x1_0000_0000_0000) % 256 && b2 == (
    x / 0x100_0000_0000) % 256 && b3 == (x / 0x1_0000_0000) % 256) by (bit_vector)
        requires
            b0 == (x >> 56) as u8,
            b1 == ((x >> 48) & 0xff) as u8,
            b2 == ((x >> 40) & 0xff) as u8,
            b3 == ((x >> 32) & 0xff) as u8,
    ;
    assert(b4 == (x / 0x100_0000) % 256 && b5 == (x / 0x1_0000) % 256 && b6 == (x / 0x100) % 256
        && b7 == x % 256) by (bit_vector)
        requires
            b4 == ((x >> 24) & 0xff) as u8,
            b5 == ((x >> 16) & 0xff) as u8,
            b6 == ((x >> 8) & 0xff) as u8,
            b7 == (x & 0xff) as u8,
    ;
    out.push(b0);
    out.push(b1);
    out.push(b2);
    out.push(b3);
    out.push(b4);
    out.push(b5);
    out.push(b6);
    out.push(b7);
    assert(out@ =~= old(out)@ + limb_be(x));
}

pub(crate) fn unpack_u32(x: u32, out: &mut Vec<u8>)
    ensures
        final(out)@ == old(out)@ + limb_be4(x),
{
    let b0: u8 = (x >> 24) as u8;
    let b1: u8 = ((x >> 16) & 0xff) as u8;
    let b2: u8 = ((x >> 8) & 0xff) as u8;
    let b3: u8 = (x & 0xff) as u8;
    assert(b0 == (x / 0x100_0000) % 256 && b1 == (x / 0x1_0000) % 256 && b2 == (x / 0x100) % 256
        && b3 == x % 256) by (bit_vector)
        requires
            b0 == (x >> 24) as u8,
            b1 == ((x >> 16) & 0xff) as u8,
            b2 == ((x >> 8) & 0xff) as u8,
            b3 == (x & 0xff) as u8,
    ;
    out.push(b0);
    out.push(b1);
    out.push(b2);
    out.push(b3);
    assert(out@ =~= old(out)@ + limb_be4(x));
}

/// A limb is the number its eight big-endian bytes spell.
pub proof fn lemma_limb_bytes_spell(x: u64)
    ensures
        be_u64(limb_be(x)) == x,
{
    let s = limb_be(x);
    assert(((x / 0x100_0000_0000_0000) % 256) * 0x100_0000_0000_0000 + ((x / 0x1_0000_0000_0000)
        % 256) * 0x1_0000_0000_0000 + ((x / 0x100_0000_0000) % 256) * 0x100_0000_0000 + ((x
        / 0x1_0000_0000) % 256) * 0x1_0000_0000 + ((x / 0x100_0000) % 256) * 0x100_0000 + ((x
        / 0x1_0000) % 256) * 0x1_0000 + ((x / 0x100) % 256) * 0x100 + (x % 256) == x)
        by (bit_vector);
}

/// Eight bytes are the big-endian bytes of the number they spell.
pub proof fn lemma_spelled_limb_bytes(s: Seq<u8>)
    requires
        s.len() == 8,
    ensures
        0 <= be_u64(s) < limb_base(),
        limb_be(be_u64(s) as u64) == s,
{
    let (b0, b1, b2, b3, b4, b5, b6, b7) = (s[0], s[1], s[2], s[3], s[4], s[5], s[6], s[7]);
    let x: u64 = be_u64(s) as u64;
    assert(x == be_u64(s));
    assert((x / 0x100_0000_0000_0000) % 256 == b0 && (x / 0x1_0000_0000_0000) % 256 == b1 && (x
        / 0x100_0000_0000) % 256 == b2 && (x / 0x1_0000_0000) % 256 == b3 && (x / 0x100_0000)
        % 256 == b4 && (x / 0x1_0000) % 256 == b5 && (x / 0x100) % 256 == b6 && x % 256 == b7)
        by (bit_vector)
        requires
            x == b0 * 0x100_0000_0000_0000 + b1 * 0x1_0000_0000_0000 + b2 * 0x100_0000_0000 + b3
                * 0x1_0000_0000 + b4 * 0x100_0000 + b5 * 0x1_0000 + b6 * 0x100 + b7,
    ;
    assert(limb_be(x) =~= s);
}

/// A 32-bit number is the number its four big-endian bytes spell.
pub proof fn lemma_limb4_bytes_spell(x: u32)
    ensures
        be_u32(limb_be4(x)) == x,
{
    assert(((x / 0x100_0000) % 256) * 0x100_0000 + ((x / 0x1_0000) % 256) * 0x1_0000 + ((x / 0x100)
        % 256) * 0x100 + (x % 256) == x) by (bit_vector);
}

/// Four bytes are the big-endian bytes of the number they spell.
pub proof fn lemma_spelled_limb4_bytes(s: Seq<u8>)
    requires
        s.len() == 4,
    ensures
        0 <= be_u32(s) < 0x1_0000_0000,
        limb_be4(be_u32(s) as u32) == s,
{
    let (b0, b1, b2, b3) = (s[0], s[1], s[2], s[3]);
    let x: u32 = be_u32(s) as u32;
    assert(x == be_u32(s));
    assert((x / 0x100_0000) % 256 == b0 && (x / 0x1_0000) % 256 == b1 && (x / 0x100) % 256 == b2
        && x % 256 == b3) by (bit_vector)
        requires
            x == b0 * 0x100_0000 + b1 * 0x1_0000 + b2 * 0x100 + b3,
    ;
    assert(limb_be4(x) =~= s);
}

/// A 256-bit unsigned integer, held as four 64-bit limbs (`l0` the least
/// significant).
#[derive(Clone, Copy, Debug, PartialEq, Eq, Structural, Hash)]
pub struct Word {
    pub l3: u64,
    pub l2: u64,
    pub l1: u64,
    pub l0: u64,
}

impl Word {
    /// The number this word stands for.
    pub open spec fn value(self) -> nat {
        (self.l0 + 0x1_0000_0000_0000_0000nat * (self.l1 + 0x1_0000_0000_0000_0000nat * (self.l2
            + 0x1_0000_0000_0000_0000nat * self.l3))) as nat
    }

    /// The word that stands for `n` (for `n` below `modulus()`; larger
    /// numbers are reduced).
    pub open spec fn from_nat(n: nat) -> Word {
        Word {
            l0: (n % 0x1_0000_0000_0000_0000nat) as u64,
            l1: ((n / 0x1_0000_0000_0000_0000nat) % 0x1_0000_0000_0000_0000nat) as u64,
            l2: (((n / 0x1_0000_0000_0000_0000nat) / 0x1_0000_0000_0000_0000nat)
                % 0x1_0000_0000_0000_0000nat) as u64,
            l3: ((((n / 0x1_0000_0000_0000_0000nat) / 0x1_0000_0000_0000_0000nat)
                / 0x1_0000_0000_0000_0000nat) % 0x1_0000_0000_0000_0000nat) as u64,
        }
    }

    /// The word read as a two's-complement number.
    pub open spec fn signed(self) -> int {
        if self.value() < sign_bit() {
            self.value() as int
        } else {
            self.value() - modulus()
        }
    }

    /// The 32 bytes of the wire form, most significant first.
    pub open spec fn be_bytes(self) -> Seq<u8> {
        limb_be(self.l3) + limb_be(self.l2) + limb_be(self.l1) + limb_be(self.l0)
    }

    /// The word whose wire form is `s`.
    pub open spec fn from_be(s: Seq<u8>) -> Word
        recommends
            s.len() == 32,
    {
        Word {
            l3: be_u64(s.subrange(0, 8)) as u64,
            l2: be_u64(s.subrange(8, 16)) as u64,
            l1: be_u64(s.subrange(16, 24)) as u64,
            l0: be_u64(s.subrange(24, 32)) as u64,
        }
    }

    pub open spec fn spec_zero() -> Word {
        Word { l3: 0, l2: 0, l1: 0, l0: 0 }
    }

    pub open spec fn spec_one() -> Word {
        Word { l3: 0, l2: 0, l1: 0, l0: 1 }
    }

    pub open spec fn spec_max() -> Word {
        Word {
            l3: 0xffff_ffff_ffff_ffff,
            l2: 0xffff_ffff_ffff_ffff,
            l1: 0xffff_ffff_ffff_ffff,
            l0: 0xffff_ffff_ffff_ffff,
        }
    }

    /// The word 0.
    #[verifier::when_used_as_spec(spec_zero)]
    pub fn zero() -> (r: Word)
        ensures
            r == Word::spec_zero(),
            r.value() == 0,
    {
        Word { l3: 0, l2: 0, l1: 0, l0: 0 }
    }

    /// The word 1.
    #[verifier::when_used_as_spec(spec_one)]
    pub fn one() -> (r: Word)
        ensures
            r == Word::spec_one(),
            r.value() == 1,
    {
        Word { l3: 0, l2: 0, l1: 0, l0: 1 }
    }

    /// The largest word, `2^256 - 1`.
    #[verifier::when_used_as_spec(spec_max)]
    pub fn max_value() -> (r: Word)
        ensures
            r == Word::spec_max(),
            r.value() == modulus() - 1,
    {
        Word {
            l3: 0xffff_ffff_ffff_ffff,
            l2: 0xffff_ffff_ffff_ffff,
            l1: 0xffff_ffff_ffff_ffff,
            l0: 0xffff_ffff_ffff_ffff,
        }
    }

    pub open spec fn spec_from_u64(x: u64) -> Word {
        Word { l3: 0, l2: 0, l1: 0, l0: x }
    }

    pub open spec fn spec_from_usize(x: usize) -> Word {
        Word { l3: 0, l2: 0, l1: 0, l0: x as u64 }
    }

    /// The word that stands for `x`.
    #[verifier::when_used_as_spec(spec_from_u64)]
    pub fn from_u64(x: u64) -> (r: Word)
        ensures
            r == Word::spec_from_u64(x),
            r.value() == x,
    {
        Word { l3: 0, l2: 0, l1: 0, l0: x }
    }

    /// The word that stands for `x`.
    #[verifier::when_used_as_spec(spec_from_usize)]
    pub fn from_usize(x: usize) -> (r: Word)
        ensures
            r == Word::spec_from_usize(x),
            r.value() == x,
    {
        Word { l3: 0, l2: 0, l1: 0, l0: x as u64 }
    }

    /// The word that stands for `x`.
    pub fn from_u128(x: u128) -> (r: Word)
        ensures
            r.value() == x,
            r.l3 == 0,
            r.l2 == 0,
    {
        let lo: u64 = (x & 0xffff_ffff_ffff_ffff) as u64;
        let hi: u64 = (x >> 64) as u64;
        assert(lo + hi * 0x1_0000_0000_0000_0000 == x) by (bit_vector)
            requires
                lo == (x & 0xffff_ffff_ffff_ffff) as u64,
                hi == (x >> 64) as u64,
        ;
        Word { l3: 0, l2: 0, l1: hi, l0: lo }
    }

    /// Whether the word is 0.
    pub fn is_zero(&self) -> (r: bool)
        ensures
            r == (self.value() == 0),
            r == (*self == Word::spec_zero()),
    {
        self.l0 == 0 && self.l1 == 0 && self.l2 == 0 && self.l3 == 0
    }

    /// Whether the word fits a `usize`.
    pub fn fits_usize(&self) -> (r: bool)
        ensures
            r == (self.value() <= usize::MAX),
    {
        self.l1 == 0 && self.l2 == 0 && self.l3 == 0 && self.l0 <= usize::MAX as u64
    }

    /// The word as a `usize`.
    pub fn as_usize(&self) -> (r: usize)
        requires
            self.value() <= usize::MAX,
        ensures
            r == self.value(),
    {
        self.l0 as usize
    }

    /// The low 64 bits.
    pub fn low_u64(&self) -> (r: u64)
        ensures
            r == self.value() % limb_base(),
            r == self.l0,
    {
        self.l0
    }

    /// Whether `self < other` as unsigned numbers.
    pub fn lt(&self, other: &Word) -> (r: bool)
        ensures
            r == (self.value() < other.value()),
    {
        if self.l3 != other.l3 {
            self.l3 < other.l3
        } else if self.l2 != other.l2 {
            self.l2 < other.l2
        } else if self.l1 != other.l1 {
            self.l1 < other.l1
        } else {
            self.l0 < other.l0
        }
    }

    /// Whether `self > other` as unsigned numbers.
    pub fn gt(&self, other: &Word) -> (r: bool)
        ensures
            r == (self.value() > other.value()),
    {
        other.lt(self)
    }

    /// Whether the word is negative when read as two's complement.
    pub fn is_negative(&self) -> (r: bool)
        ensures
            r == (self.value() >= sign_bit()),
            r == (self.signed() < 0),
    {
        proof {
            lemma_word_of_value(*self);
            let low: int = self.l0 + 0x1_0000_0000_0000_0000int * (self.l1
                + 0x1_0000_0000_0000_0000int * (self.l2 as int));
            assert(0 <= low < 0x1_0000_0000_0000_0000_0000_0000_0000_0000_0000_0000_0000_0000int);
            assert(self.value() == low
                + 0x1_0000_0000_0000_0000_0000_0000_0000_0000_0000_0000_0000_0000int * self.l3);
            assert(0x1_0000_0000_0000_0000_0000_0000_0000_0000_0000_0000_0000_0000int
                * 0x8000_0000_0000_0000int == sign_bit());
        }
        self.l3 >= 0x8000_0000_0000_0000
    }

    /// The word from its 32-byte big-endian wire form.
    pub fn from_big_endian(bytes: &[u8; 32]) -> (r: Word)
        ensures
            r == Word::from_be(bytes@),
    {
        let l3 = pack_u64(
            bytes[0],
            bytes[1],
            bytes[2],
            bytes[3],
            bytes[4],
            bytes[5],
            bytes[6],
            bytes[7],
        );
        let l2 = pack_u64(
            bytes[8],
            bytes[9],
            bytes[10],
            bytes[11],
            bytes[12],
            bytes[13],
            bytes[14],
            bytes[15],
        );
        let l1 = pack_u64(
            bytes[16],
            bytes[17],
            bytes[18],
            bytes[19],
            bytes[20],
            bytes[21],
            bytes[22],
            bytes[23],
        );
        let l0 = pack_u64(
            bytes[24],
            bytes[25],
            bytes[26],
            bytes[27],
            bytes[28],
            bytes[29],
            bytes[30],
            bytes[31],
        );
        proof {
            let s = bytes@;
            assert(s.subrange(0, 8) =~= seq![s[0], s[1], s[2], s[3], s[4], s[5], s[6], s[7]]);
            assert(s.subrange(8, 16) =~= seq![s[8], s[9], s[10], s[11], s[12], s[13], s[14], s[15]]);
            assert(s.subrange(16, 24) =~= seq![
                s[16],
                s[17],
                s[18],
                s[19],
                s[20],
                s[21],
                s[22],
                s[23],
            ]);
            assert(s.subrange(24, 32) =~= seq![
                s[24],
                s[25],
                s[26],
                s[27],
                s[28],
                s[29],
                s[30],
                s[31],
            ]);
        }
        Word { l3, l2, l1, l0 }
    }

    /// The word from a big-endian byte string of 32 bytes.
    pub fn from_be_vec(bytes: &Vec<u8>) -> (r: Word)
        requires
            bytes.len() == 32,
        ensures
            r == Word::from_be(bytes@),
    {
        let mut a = [0u8; 32];
        let mut i: usize = 0;
        while i < 32
            invariant
                i <= 32,
                bytes.len() == 32,
                forall|j: int| 0 <= j < i ==> a@[j] == bytes@[j],
            decreases 32 - i,
        {
            a[i] = bytes[i];
            i = i + 1;
        }
        assert(a@ =~= bytes@);
        Word::from_big_endian(&a)
    }

    /// The 32-byte big-endian wire form, as a vector.
    pub fn to_be_vec(&self) -> (r: Vec<u8>)
        ensures
            r@ == self.be_bytes(),
            r.len() == 32,
    {
        let mut out: Vec<u8> = Vec::new();
        unpack_u64(self.l3, &mut out);
        assert(out@ =~= limb_be(self.l3));
        unpack_u64(self.l2, &mut out);
        unpack_u64(self.l1, &mut out);
        unpack_u64(self.l0, &mut out);
        out
    }

    /// The 32-byte big-endian wire form.
    pub fn to_big_endian(&self) -> (r: [u8; 32])
        ensures
            r@ == self.be_bytes(),
    {
        let v = self.to_be_vec();
        let mut a = [0u8; 32];
        let mut i: usize = 0;
        while i < 32
            invariant
                i <= 32,
                v.len() == 32,
                forall|j: int| 0 <= j < i ==> a@[j] == v@[j],
            decreases 32 - i,
        {
            a[i] = v[i];
            i = i + 1;
        }
        assert(a@ =~= v@);
        a
    }
}

/// The 32-byte big-endian wire form of a word.
pub fn u256_to_arr(value: &Word) -> (r: [u8; 32])
    ensures
        r@ == value.be_bytes(),
{
    value.to_big_endian()
}

/// Every word is the word of its own number, and its number is below `2^256`.
pub proof fn lemma_word_of_value(w: Word)
    ensures
        w.value() < modulus(),
        Word::from_nat(w.value()) == w,
{
    let b: int = 0x1_0000_0000_0000_0000;
    let n2: int = w.l2 + b * w.l3;
    let n1: int = w.l1 + b * n2;
    let n0: int = w.l0 + b * n1;
    assert(n0 == w.value());
    assert(b * w.l3 == w.l3 * b) by (nonlinear_arith);
    assert(b * n2 == n2 * b) by (nonlinear_arith);
    assert(b * n1 == n1 * b) by (nonlinear_arith);
    vstd::arithmetic::div_mod::lemma_fundamental_div_mod_converse(n0, b, n1, w.l0 as int);
    vstd::arithmetic::div_mod::lemma_fundamental_div_mod_converse(n1, b, n2, w.l1 as int);
    vstd::arithmetic::div_mod::lemma_fundamental_div_mod_converse(n2, b, w.l3 as int, w.l2 as int);
    vstd::arithmetic::div_mod::lemma_small_mod(w.l3 as nat, b as nat);
}

/// Every number below `2^256` is the number of its word.
pub proof fn lemma_value_of_word(n: nat)
    requires
        n < modulus(),
    ensures
        Word::from_nat(n).value() == n,
{
    let b: int = 0x1_0000_0000_0000_0000;
    let n0: int = n as int;
    let n1: int = n0 / b;
    let n2: int = n1 / b;
    let n3: int = n2 / b;
    vstd::arithmetic::div_mod::lemma_fundamental_div_mod(n0, b);
    vstd::arithmetic::div_mod::lemma_fundamental_div_mod(n1, b);
    vstd::arithmetic::div_mod::lemma_fundamental_div_mod(n2, b);
    let b2: int = 0x1_0000_0000_0000_0000_0000_0000_0000_0000int;
    let b3: int = 0x1_0000_0000_0000_0000_0000_0000_0000_0000_0000_0000_0000_0000int;
    assert(b * b3 == modulus() && b * b2 == b3 && b * b == b2);
    vstd::arithmetic::div_mod::lemma_multiply_divide_lt(n0, b, b3);
    vstd::arithmetic::div_mod::lemma_multiply_divide_lt(n1, b, b2);
    vstd::arithmetic::div_mod::lemma_multiply_divide_lt(n2, b, b);
    assert(0 <= n3 < b);
    vstd::arithmetic::div_mod::lemma_small_mod(n3 as nat, b as nat);
}

/// Two words with the same number are the same word.
pub proof fn lemma_value_injective(a: Word, b: Word)
    requires
        a.value() == b.value(),
    ensures
        a == b,
{
    lemma_word_of_value(a);
    lemma_word_of_value(b);
}

/// Reading the wire form of a word gives the word back.
pub proof fn lemma_word_round_trip(w: Word)
    ensures
        w.be_bytes().len() == 32,
        Word::from_be(w.be_bytes()) == w,
{
    let s = w.be_bytes();
    assert(s.subrange(0, 8) =~= limb_be(w.l3));
    assert(s.subrange(8, 16) =~= limb_be(w.l2));
    assert(s.subrange(16, 24) =~= limb_be(w.l1));
    assert(s.subrange(24, 32) =~= limb_be(w.l0));
    lemma_limb_bytes_spell(w.l3);
    lemma_limb_bytes_spell(w.l2);
    lemma_limb_bytes_spell(w.l1);
    lemma_limb_bytes_spell(w.l0);
}

/// Writing the word read from 32 bytes gives the 32 bytes back.
pub proof fn lemma_bytes_round_trip(s: Seq<u8>)
    requires
        s.len() == 32,
    ensures
        Word::from_be(s).be_bytes() == s,
{
    lemma_spelled_limb_bytes(s.subrange(0, 8));
    lemma_spelled_limb_bytes(s.subrange(8, 16));
    lemma_spelled_limb_bytes(s.subrange(16, 24));
    lemma_spelled_limb_bytes(s.subrange(24, 32));
    assert(Word::from_be(s).be_bytes() =~= s);
}

/// The wire form is one-to-one: words with the same 32 bytes are the same
/// word, and every 32 bytes are the wire form of exactly one word.
pub proof fn lemma_wire_form_bijective(a: Word, b: Word, s: Seq<u8>)
    requires
        s.len() == 32,
    ensures
        a.be_bytes() == b.be_bytes() ==> a == b,
        Word::from_be(s).be_bytes() == s,
        a.be_bytes() == s ==> a == Word::from_be(s),
{
    lemma_word_round_trip(a);
    lemma_word_round_trip(b);
    lemma_bytes_round_trip(s);
}

} // verus!
