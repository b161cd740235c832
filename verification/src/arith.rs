//! Arithmetic on words, as the instruction set defines it.
//!
//! Each operation has a spec function that states its result over the numbers
//! that the words stand for, and an executable function proved against it.
//! The executable functions rest on the 256-bit integer of `primitive_types`
//! for addition, subtraction, multiplication, division, remainder, powers and
//! shifts.

use crate::word::{lemma_value_of_word, lemma_word_of_value, modulus, Word};
use vstd::arithmetic::power::pow;
use vstd::arithmetic::power2::pow2;
use vstd::prelude::*;

verus! {

/// `U256::overflowing_add` of `primitive_types`: the sum reduced modulo
/// `2^256`, and whether the true sum was `2^256` or more.
#[verifier::external_body]
pub(crate) fn u256_overflowing_add(a: Word, b: Word) -> (r: (Word, bool))
    ensures
        r.0 == Word::from_nat((a.value() + b.value()) % modulus()),
        r.1 == (a.value() + b.value() >= modulus()),
{
    let x = primitive_types::U256([a.l0, a.l1, a.l2, a.l3]);
    let y = primitive_types::U256([b.l0, b.l1, b.l2, b.l3]);
    let (s, o) = x.overflowing_add(y);
    (Word { l3: s.0[3], l2: s.0[2], l1: s.0[1], l0: s.0[0] }, o)
}

/// `U256::overflowing_sub` of `primitive_types`: the difference reduced
/// modulo `2^256`, and whether the true difference was negative.
#[verifier::external_body]
pub(crate) fn u256_overflowing_sub(a: Word, b: Word) -> (r: (Word, bool))
    ensures
        r.0 == Word::from_nat(((a.value() - b.value()) % (modulus() as int)) as nat),
        r.1 == (a.value() < b.value()),
{
    let x = primitive_types::U256([a.l0, a.l1, a.l2, a.l3]);
    let y = primitive_types::U256([b.l0, b.l1, b.l2, b.l3]);
    let (s, o) = x.overflowing_sub(y);
    (Word { l3: s.0[3], l2: s.0[2], l1: s.0[1], l0: s.0[0] }, o)
}

/// `U256::overflowing_mul` of `primitive_types`: the product reduced modulo
/// `2^256`, and whether the true product was `2^256` or more.
#[verifier::external_body]
pub(crate) fn u256_overflowing_mul(a: Word, b: Word) -> (r: (Word, bool))
    ensures
        r.0 == Word::from_nat((a.value() * b.value()) % modulus()),
        r.1 == (a.value() * b.value() >= modulus()),
{
    let x = primitive_types::U256([a.l0, a.l1, a.l2, a.l3]);
    let y = primitive_types::U256([b.l0, b.l1, b.l2, b.l3]);
    let (s, o) = x.overflowing_mul(y);
    (Word { l3: s.0[3], l2: s.0[2], l1: s.0[1], l0: s.0[0] }, o)
}

/// `U256::checked_div` of `primitive_types`: `None` for a zero divisor, else
/// the quotient rounded down.
#[verifier::external_body]
pub(crate) fn u256_checked_div(a: Word, b: Word) -> (r: Option<Word>)
    ensures
        r is None <==> b.value() == 0,
        r is Some ==> r->0 == Word::from_nat(a.value() / b.value()),
{
    let x = primitive_types::U256([a.l0, a.l1, a.l2, a.l3]);
    let y = primitive_types::U256([b.l0, b.l1, b.l2, b.l3]);
    match x.checked_div(y) {
        Some(q) => Some(Word { l3: q.0[3], l2: q.0[2], l1: q.0[1], l0: q.0[0] }),
        None => None,
    }
}

/// `U256::checked_rem` of `primitive_types`: `None` for a zero divisor, else
/// the remainder of the division.
#[verifier::external_body]
pub(crate) fn u256_checked_rem(a: Word, b: Word) -> (r: Option<Word>)
    ensures
        r is None <==> b.value() == 0,
        r is Some ==> r->0 == Word::from_nat(a.value() % b.value()),
{
    let x = primitive_types::U256([a.l0, a.l1, a.l2, a.l3]);
    let y = primitive_types::U256([b.l0, b.l1, b.l2, b.l3]);
    match x.checked_rem(y) {
        Some(q) => Some(Word { l3: q.0[3], l2: q.0[2], l1: q.0[1], l0: q.0[0] }),
        None => None,
    }
}

/// `U256::full_mul` of `primitive_types`, which gives the 512-bit product,
/// followed by the remainder of `U512` by `n`: the product of `a` and `b`
/// reduced modulo `n`, computed without loss.
#[verifier::external_body]
pub(crate) fn u256_mul_rem(a: Word, b: Word, n: Word) -> (r: Word)
    requires
        n.value() != 0,
    ensures
        r == Word::from_nat((a.value() * b.value()) % n.value()),
{
    let x = primitive_types::U256([a.l0, a.l1, a.l2, a.l3]);
    let y = primitive_types::U256([b.l0, b.l1, b.l2, b.l3]);
    let m = primitive_types::U256([n.l0, n.l1, n.l2, n.l3]);
    let q = x.full_mul(y) % primitive_types::U512::from(m);
    Word { l3: q.0[3], l2: q.0[2], l1: q.0[1], l0: q.0[0] }
}

/// `U256::overflowing_pow` of `primitive_types`: `a` to the power `e` by
/// repeated squaring, reduced modulo `2^256`.
#[verifier::external_body]
pub(crate) fn u256_overflowing_pow(a: Word, e: Word) -> (r: Word)
    ensures
        r == Word::from_nat((pow(a.value() as int, e.value()) % (modulus() as int)) as nat),
{
    let x = primitive_types::U256([a.l0, a.l1, a.l2, a.l3]);
    let y = primitive_types::U256([e.l0, e.l1, e.l2, e.l3]);
    let (p, _) = x.overflowing_pow(y);
    Word { l3: p.0[3], l2: p.0[2], l1: p.0[1], l0: p.0[0] }
}

/// The operator `<<` of `U256` in `primitive_types`: `a` times `2^shift`,
/// reduced modulo `2^256`.
#[verifier::external_body]
pub(crate) fn u256_shl(a: Word, shift: usize) -> (r: Word)
    ensures
        r == Word::from_nat((a.value() * pow2(shift as nat)) % modulus()),
{
    let x = primitive_types::U256([a.l0, a.l1, a.l2, a.l3]);
    let s = x << shift;
    Word { l3: s.0[3], l2: s.0[2], l1: s.0[1], l0: s.0[0] }
}

/// The operator `>>` of `U256` in `primitive_types`: `a` divided by
/// `2^shift`, rounded down.
#[verifier::external_body]
pub(crate) fn u256_shr(a: Word, shift: usize) -> (r: Word)
    ensures
        r == Word::from_nat(a.value() / pow2(shift as nat)),
{
    let x = primitive_types::U256([a.l0, a.l1, a.l2, a.l3]);
    let s = x >> shift;
    Word { l3: s.0[3], l2: s.0[2], l1: s.0[1], l0: s.0[0] }
}

/// The word that stands for `i` modulo `2^256`.
pub open spec fn word_of_int(i: int) -> Word {
    Word::from_nat((i % (modulus() as int)) as nat)
}

/// The quotient of `x` by `y` rounded towards zero.
pub open spec fn trunc_div(x: int, y: int) -> int
    recommends
        y != 0,
{
    if x >= 0 {
        if y > 0 {
            x / y
        } else {
            -(x / (-y))
        }
    } else {
        if y > 0 {
            -((-x) / y)
        } else {
            (-x) / (-y)
        }
    }
}

/// The remainder of `x` by `y` that has the sign of `x`.
pub open spec fn trunc_rem(x: int, y: int) -> int
    recommends
        y != 0,
{
    let m = if y > 0 {
        y
    } else {
        -y
    };
    if x >= 0 {
        x % m
    } else {
        -((-x) % m)
    }
}

/// The word 1 for `true`, 0 for `false`.
pub open spec fn word_of_bool(b: bool) -> Word {
    if b {
        Word::spec_one()
    } else {
        Word::spec_zero()
    }
}

impl Word {
    pub open spec fn spec_wrapping_add(self, other: Word) -> Word {
        Word::from_nat((self.value() + other.value()) % modulus())
    }

    pub open spec fn spec_wrapping_sub(self, other: Word) -> Word {
        word_of_int(self.value() - other.value())
    }

    pub open spec fn spec_wrapping_mul(self, other: Word) -> Word {
        Word::from_nat((self.value() * other.value()) % modulus())
    }

    pub open spec fn spec_div(self, other: Word) -> Word {
        if other.value() == 0 {
            Word::spec_zero()
        } else {
            Word::from_nat(self.value() / other.value())
        }
    }

    pub open spec fn spec_rem(self, other: Word) -> Word {
        if other.value() == 0 {
            Word::spec_zero()
        } else {
            Word::from_nat(self.value() % other.value())
        }
    }

    pub open spec fn spec_sdiv(self, other: Word) -> Word {
        if other.value() == 0 {
            Word::spec_zero()
        } else {
            word_of_int(trunc_div(self.signed(), other.signed()))
        }
    }

    pub open spec fn spec_smod(self, other: Word) -> Word {
        if other.value() == 0 {
            Word::spec_zero()
        } else {
            word_of_int(trunc_rem(self.signed(), other.signed()))
        }
    }

    pub open spec fn spec_addmod(self, other: Word, n: Word) -> Word {
        if n.value() == 0 {
            Word::spec_zero()
        } else {
            Word::from_nat((self.value() + other.value()) % n.value())
        }
    }

    pub open spec fn spec_mulmod(self, other: Word, n: Word) -> Word {
        if n.value() == 0 {
            Word::spec_zero()
        } else {
            Word::from_nat((self.value() * other.value()) % n.value())
        }
    }

    pub open spec fn spec_exp(self, e: Word) -> Word {
        word_of_int(pow(self.value() as int, e.value()))
    }

    pub open spec fn spec_bitand(self, other: Word) -> Word {
        Word {
            l3: self.l3 & other.l3,
            l2: self.l2 & other.l2,
            l1: self.l1 & other.l1,
            l0: self.l0 & other.l0,
        }
    }

    pub open spec fn spec_bitor(self, other: Word) -> Word {
        Word {
            l3: self.l3 | other.l3,
            l2: self.l2 | other.l2,
            l1: self.l1 | other.l1,
            l0: self.l0 | other.l0,
        }
    }

    pub open spec fn spec_bitxor(self, other: Word) -> Word {
        Word {
            l3: self.l3 ^ other.l3,
            l2: self.l2 ^ other.l2,
            l1: self.l1 ^ other.l1,
            l0: self.l0 ^ other.l0,
        }
    }

    pub open spec fn spec_not(self) -> Word {
        Word { l3: !self.l3, l2: !self.l2, l1: !self.l1, l0: !self.l0 }
    }

    /// `self` shifted left by `shift` bits; 0 for a shift of 256 or more.
    pub open spec fn spec_shl(self, shift: Word) -> Word {
        if shift.value() >= 256 {
            Word::spec_zero()
        } else {
            Word::from_nat((self.value() * pow2(shift.value())) % modulus())
        }
    }

    /// `self` shifted right by `shift` bits; 0 for a shift of 256 or more.
    pub open spec fn spec_shr(self, shift: Word) -> Word {
        if shift.value() >= 256 {
            Word::spec_zero()
        } else {
            Word::from_nat(self.value() / pow2(shift.value()))
        }
    }

    /// `self`, read as two's complement, shifted right by `shift` bits with
    /// the sign kept: for a shift of 256 or more, 0 for a non-negative word
    /// and all ones for a negative one.
    pub open spec fn spec_sar(self, shift: Word) -> Word {
        if shift.value() >= 256 {
            if self.signed() < 0 {
                Word::spec_max()
            } else {
                Word::spec_zero()
            }
        } else {
            word_of_int(self.signed() / (pow2(shift.value()) as int))
        }
    }

    /// Byte `index` of the wire form (0 the most significant), as a word; 0
    /// for an index of 32 or more.
    pub open spec fn spec_byte(self, index: Word) -> Word {
        if index.value() >= 32 {
            Word::spec_zero()
        } else {
            Word { l3: 0, l2: 0, l1: 0, l0: self.be_bytes()[index.value() as int] as u64 }
        }
    }

    /// The wire form of `self` sign-extended from its byte `k` counted from
    /// the least significant: the low `k + 1` bytes are kept, and every byte
    /// above them is `0xff` where the kept part is negative and 0 where it is
    /// not. For `k` of 31 or more, `self`.
    pub open spec fn spec_signextend_bytes(self, k: Word) -> Seq<u8> {
        let s = self.be_bytes();
        if k.value() >= 31 {
            s
        } else {
            let first = 31 - k.value() as int;
            Seq::new(
                32,
                |i: int|
                    if i >= first {
                        s[i]
                    } else if s[first] >= 0x80 {
                        0xffu8
                    } else {
                        0u8
                    },
            )
        }
    }

    pub open spec fn spec_signextend(self, k: Word) -> Word {
        Word::from_be(self.spec_signextend_bytes(k))
    }

    /// `self + other` modulo `2^256`.
    pub fn wrapping_add(self, other: Word) -> (r: Word)
        ensures
            r == self.spec_wrapping_add(other),
    {
        u256_overflowing_add(self, other).0
    }

    /// `self - other` modulo `2^256`.
    pub fn wrapping_sub(self, other: Word) -> (r: Word)
        ensures
            r == self.spec_wrapping_sub(other),
    {
        u256_overflowing_sub(self, other).0
    }

    /// `self * other` modulo `2^256`.
    pub fn wrapping_mul(self, other: Word) -> (r: Word)
        ensures
            r == self.spec_wrapping_mul(other),
    {
        u256_overflowing_mul(self, other).0
    }

    /// `self + other`, or `None` where the sum is `2^256` or more.
    pub fn checked_add(self, other: Word) -> (r: Option<Word>)
        ensures
            r is Some <==> self.value() + other.value() < modulus(),
            r is Some ==> r->0.value() == self.value() + other.value(),
    {
        let (s, o) = u256_overflowing_add(self, other);
        if o {
            None
        } else {
            proof {
                vstd::arithmetic::div_mod::lemma_small_mod(
                    self.value() + other.value(),
                    modulus(),
                );
                lemma_value_of_word(self.value() + other.value());
            }
            Some(s)
        }
    }

    /// `self / other` rounded down, and 0 for a zero divisor.
    pub fn div_or_zero(self, other: Word) -> (r: Word)
        ensures
            r == self.spec_div(other),
    {
        match u256_checked_div(self, other) {
            Some(q) => q,
            None => Word::zero(),
        }
    }

    /// The remainder of `self` by `other`, and 0 for a zero divisor.
    pub fn rem_or_zero(self, other: Word) -> (r: Word)
        ensures
            r == self.spec_rem(other),
    {
        match u256_checked_rem(self, other) {
            Some(q) => q,
            None => Word::zero(),
        }
    }

    /// The two's-complement negation, `-self` modulo `2^256`.
    pub fn wrapping_neg(self) -> (r: Word)
        ensures
            r == word_of_int(-(self.value() as int)),
            self.value() == 0 ==> r.value() == 0,
            self.value() != 0 ==> r.value() == modulus() - self.value(),
    {
        let r = u256_overflowing_sub(Word::zero(), self).0;
        proof {
            lemma_word_of_value(self);
            let m = modulus() as int;
            let v = self.value() as int;
            if v == 0 {
                lemma_value_of_word(0);
            } else {
                vstd::arithmetic::div_mod::lemma_fundamental_div_mod_converse(-v, m, -1, m - v);
                lemma_value_of_word((m - v) as nat);
            }
        }
        r
    }

    /// The absolute value of the word read as two's complement.
    fn magnitude(self) -> (r: Word)
        ensures
            self.signed() >= 0 ==> r == self && r.value() == self.signed(),
            self.signed() < 0 ==> r.value() == -self.signed(),
    {
        if self.is_negative() {
            self.wrapping_neg()
        } else {
            self
        }
    }

    /// The quotient of the two words read as two's complement, rounded
    /// towards zero; 0 for a zero divisor.
    pub fn sdiv(self, other: Word) -> (r: Word)
        ensures
            r == self.spec_sdiv(other),
    {
        if other.is_zero() {
            return Word::zero();
        }
        let a = self.magnitude();
        let b = other.magnitude();
        let q = a.div_or_zero(b);
        proof {
            lemma_word_of_value(self);
            lemma_word_of_value(other);
            lemma_word_of_value(a);
            lemma_word_of_value(b);
            lemma_word_of_value(q);
            let qn = a.value() / b.value();
            vstd::arithmetic::div_mod::lemma_div_pos_is_pos(a.value() as int, b.value() as int);
            vstd::arithmetic::div_mod::lemma_div_is_ordered_by_denominator(
                a.value() as int,
                1,
                b.value() as int,
            );
            vstd::arithmetic::div_mod::lemma_div_basics(a.value() as int);
            assert(0 <= qn <= a.value());
            lemma_value_of_word(qn);
            assert(q.value() == qn);
        }
        if self.is_negative() != other.is_negative() {
            q.wrapping_neg()
        } else {
            proof {
                vstd::arithmetic::div_mod::lemma_small_mod(q.value(), modulus());
            }
            q
        }
    }

    /// The remainder of the two words read as two's complement, with the
    /// sign of `self`; 0 for a zero divisor.
    pub fn smod(self, other: Word) -> (r: Word)
        ensures
            r == self.spec_smod(other),
    {
        if other.is_zero() {
            return Word::zero();
        }
        let a = self.magnitude();
        let b = other.magnitude();
        let q = a.rem_or_zero(b);
        proof {
            lemma_word_of_value(self);
            lemma_word_of_value(other);
            lemma_word_of_value(a);
            lemma_word_of_value(b);
            lemma_word_of_value(q);
            let qn = a.value() % b.value();
            vstd::arithmetic::div_mod::lemma_mod_bound(a.value() as int, b.value() as int);
            lemma_value_of_word(qn);
            assert(q.value() == qn);
        }
        if self.is_negative() {
            q.wrapping_neg()
        } else {
            proof {
                vstd::arithmetic::div_mod::lemma_small_mod(q.value(), modulus());
            }
            q
        }
    }

    /// `(self + other) % n` without loss, and 0 for `n` of 0.
    pub fn addmod(self, other: Word, n: Word) -> (r: Word)
        ensures
            r == self.spec_addmod(other, n),
    {
        if n.is_zero() {
            return Word::zero();
        }
        let a = self.rem_or_zero(n);
        let b = other.rem_or_zero(n);
        let (s, carry) = u256_overflowing_add(a, b);
        proof {
            let m = modulus() as int;
            let nn = n.value() as int;
            let av = (self.value() % n.value()) as int;
            let bv = (other.value() % n.value()) as int;
            lemma_word_of_value(n);
            vstd::arithmetic::div_mod::lemma_mod_bound(self.value() as int, nn);
            vstd::arithmetic::div_mod::lemma_mod_bound(other.value() as int, nn);
            lemma_value_of_word(av as nat);
            lemma_value_of_word(bv as nat);
            assert(a.value() == av && b.value() == bv);
            vstd::arithmetic::div_mod::lemma_add_mod_noop(
                self.value() as int,
                other.value() as int,
                nn,
            );
            assert(((self.value() + other.value()) as int) % nn == (av + bv) % nn);
            if av + bv < nn {
                vstd::arithmetic::div_mod::lemma_small_mod((av + bv) as nat, nn as nat);
                vstd::arithmetic::div_mod::lemma_small_mod((av + bv) as nat, m as nat);
                lemma_value_of_word((av + bv) as nat);
            } else {
                vstd::arithmetic::div_mod::lemma_fundamental_div_mod_converse(
                    av + bv,
                    nn,
                    1,
                    av + bv - nn,
                );
                if carry {
                    vstd::arithmetic::div_mod::lemma_fundamental_div_mod_converse(
                        av + bv,
                        m,
                        1,
                        av + bv - m,
                    );
                    lemma_value_of_word((av + bv - m) as nat);
                    vstd::arithmetic::div_mod::lemma_fundamental_div_mod_converse(
                        av + bv - m - nn,
                        m,
                        -1,
                        av + bv - nn,
                    );
                } else {
                    vstd::arithmetic::div_mod::lemma_small_mod((av + bv) as nat, m as nat);
                    lemma_value_of_word((av + bv) as nat);
                    vstd::arithmetic::div_mod::lemma_small_mod((av + bv - nn) as nat, m as nat);
                }
            }
        }
        if carry || !s.lt(&n) {
            s.wrapping_sub(n)
        } else {
            s
        }
    }

    /// `(self * other) % n` without loss, and 0 for `n` of 0.
    pub fn mulmod(self, other: Word, n: Word) -> (r: Word)
        ensures
            r == self.spec_mulmod(other, n),
    {
        if n.is_zero() {
            Word::zero()
        } else {
            u256_mul_rem(self, other, n)
        }
    }

    /// `self` to the power `e`, modulo `2^256`.
    pub fn wrapping_pow(self, e: Word) -> (r: Word)
        ensures
            r == self.spec_exp(e),
    {
        u256_overflowing_pow(self, e)
    }

    /// Whether `self < other` as two's-complement numbers.
    pub fn slt(&self, other: &Word) -> (r: bool)
        ensures
            r == (self.signed() < other.signed()),
    {
        let sn = self.is_negative();
        let on = other.is_negative();
        if sn != on {
            sn
        } else {
            self.lt(other)
        }
    }

    /// The bitwise and.
    pub fn bitand(self, other: Word) -> (r: Word)
        ensures
            r == self.spec_bitand(other),
    {
        Word {
            l3: self.l3 & other.l3,
            l2: self.l2 & other.l2,
            l1: self.l1 & other.l1,
            l0: self.l0 & other.l0,
        }
    }

    /// The bitwise or.
    pub fn bitor(self, other: Word) -> (r: Word)
        ensures
            r == self.spec_bitor(other),
    {
        Word {
            l3: self.l3 | other.l3,
            l2: self.l2 | other.l2,
            l1: self.l1 | other.l1,
            l0: self.l0 | other.l0,
        }
    }

    /// The bitwise exclusive or.
    pub fn bitxor(self, other: Word) -> (r: Word)
        ensures
            r == self.spec_bitxor(other),
    {
        Word {
            l3: self.l3 ^ other.l3,
            l2: self.l2 ^ other.l2,
            l1: self.l1 ^ other.l1,
            l0: self.l0 ^ other.l0,
        }
    }

    /// The bitwise complement.
    pub fn not(self) -> (r: Word)
        ensures
            r == self.spec_not(),
    {
        Word { l3: !self.l3, l2: !self.l2, l1: !self.l1, l0: !self.l0 }
    }

    /// Whether the word is 256 or more.
    fn shift_too_large(&self) -> (r: bool)
        ensures
            r == (self.value() >= 256),
    {
        self.l3 != 0 || self.l2 != 0 || self.l1 != 0 || self.l0 >= 256
    }

    /// `self` shifted left by `shift` bits.
    pub fn shl(self, shift: Word) -> (r: Word)
        ensures
            r == self.spec_shl(shift),
    {
        if shift.shift_too_large() {
            Word::zero()
        } else {
            u256_shl(self, shift.l0 as usize)
        }
    }

    /// `self` shifted right by `shift` bits.
    pub fn shr(self, shift: Word) -> (r: Word)
        ensures
            r == self.spec_shr(shift),
    {
        if shift.shift_too_large() {
            Word::zero()
        } else {
            u256_shr(self, shift.l0 as usize)
        }
    }

    /// `self` shifted right by `shift` bits, keeping the sign.
    pub fn sar(self, shift: Word) -> (r: Word)
        ensures
            r == self.spec_sar(shift),
    {
        let negative = self.is_negative();
        if shift.shift_too_large() {
            if negative {
                Word::max_value()
            } else {
                Word::zero()
            }
        } else if negative {
            let c = Word::max_value().wrapping_sub(self);
            let d = u256_shr(c, shift.l0 as usize);
            let r = Word::max_value().wrapping_sub(d);
            proof {
                let m = modulus() as int;
                let x = self.value() as int;
                let p = pow2(shift.value()) as int;
                vstd::arithmetic::power2::lemma_pow2_pos(shift.value());
                lemma_word_of_value(self);
                let n = m - 1 - x;
                vstd::arithmetic::div_mod::lemma_small_mod(n as nat, m as nat);
                lemma_value_of_word(n as nat);
                assert(c.value() == n);
                let q = n / p;
                vstd::arithmetic::div_mod::lemma_div_pos_is_pos(n, p);
                vstd::arithmetic::div_mod::lemma_div_is_ordered_by_denominator(n, 1, p);
                vstd::arithmetic::div_mod::lemma_div_basics(n);
                assert(0 <= q <= n);
                lemma_value_of_word(q as nat);
                assert(d.value() == q);
                vstd::arithmetic::div_mod::lemma_fundamental_div_mod(n, p);
                vstd::arithmetic::div_mod::lemma_mod_bound(n, p);
                let rem = n % p;
                assert(-(n + 1) == (-q - 1) * p + (p - 1 - rem)) by (nonlinear_arith)
                    requires
                        n == p * q + rem,
                ;
                vstd::arithmetic::div_mod::lemma_fundamental_div_mod_converse(
                    -(n + 1),
                    p,
                    -q - 1,
                    p - 1 - rem,
                );
                assert(self.signed() == -(n + 1));
                assert(self.signed() / p == -q - 1);
                vstd::arithmetic::div_mod::lemma_small_mod((m - 1 - q) as nat, m as nat);
                vstd::arithmetic::div_mod::lemma_fundamental_div_mod_converse(
                    -q - 1,
                    m,
                    -1,
                    m - 1 - q,
                );
            }
            r
        } else {
            let r = u256_shr(self, shift.l0 as usize);
            proof {
                let p = pow2(shift.value()) as int;
                let x = self.value() as int;
                vstd::arithmetic::power2::lemma_pow2_pos(shift.value());
                lemma_word_of_value(self);
                vstd::arithmetic::div_mod::lemma_div_pos_is_pos(x, p);
                vstd::arithmetic::div_mod::lemma_div_is_ordered_by_denominator(x, 1, p);
                vstd::arithmetic::div_mod::lemma_div_basics(x);
                vstd::arithmetic::div_mod::lemma_small_mod((x / p) as nat, modulus());
            }
            r
        }
    }

    /// Byte `index` of the wire form, as a word.
    pub fn byte(self, index: Word) -> (r: Word)
        ensures
            r == self.spec_byte(index),
    {
        if index.l3 != 0 || index.l2 != 0 || index.l1 != 0 || index.l0 >= 32 {
            Word::zero()
        } else {
            let bytes = self.to_be_vec();
            Word::from_u64(bytes[index.l0 as usize] as u64)
        }
    }

    /// `self` sign-extended from its byte `k`.
    pub fn signextend(self, k: Word) -> (r: Word)
        ensures
            r == self.spec_signextend(k),
    {
        if k.l3 != 0 || k.l2 != 0 || k.l1 != 0 || k.l0 >= 31 {
            proof {
                crate::word::lemma_word_round_trip(self);
            }
            self
        } else {
            let bytes = self.to_be_vec();
            let first: usize = 31 - k.l0 as usize;
            let fill: u8 = if bytes[first] >= 0x80 {
                0xff
            } else {
                0
            };
            let mut out: Vec<u8> = Vec::new();
            let mut i: usize = 0;
            while i < 32
                invariant
                    i <= 32,
                    first < 32,
                    bytes.len() == 32,
                    out.len() == i,
                    forall|j: int|
                        0 <= j < i ==> out@[j] == if j >= first {
                            bytes@[j]
                        } else {
                            fill
                        },
                decreases 32 - i,
            {
                if i >= first {
                    out.push(bytes[i]);
                } else {
                    out.push(fill);
                }
                i = i + 1;
            }
            assert(out@ =~= self.spec_signextend_bytes(k));
            Word::from_be_vec(&out)
        }
    }
}

} // verus!
