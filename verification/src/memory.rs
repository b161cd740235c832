//! The byte-addressable memory of a machine.

use crate::error::{ExitError, ExitFatal};
use crate::word::{lemma_word_of_value, modulus, Word};
use vstd::prelude::*;

verus! {

/// The least multiple of 32 that is `v` or more.
pub open spec fn ceil32(v: nat) -> nat {
    if v % 32 == 0 {
        v
    } else {
        (v + 32 - v % 32) as nat
    }
}

/// What a memory holds: the bytes written so far, the length that the
/// program sees (a multiple of 32, see `Memory::wf`), and the limit that
/// writes may not pass.
pub struct MemoryView {
    pub data: Seq<u8>,
    pub effective_len: Word,
    pub limit: usize,
}

impl MemoryView {
    /// `size` bytes from `offset` on; past the bytes written so far the
    /// memory reads as zero.
    pub open spec fn get(self, offset: nat, size: nat) -> Seq<u8> {
        Seq::new(
            size,
            |i: int|
                if offset + i < self.data.len() {
                    self.data[offset + i]
                } else {
                    0u8
                },
        )
    }

    /// The bytes after `target_size` bytes were written at `offset`: those of
    /// `value` as far as they reach, zero beyond them. The memory grows to
    /// hold them; bytes in a gap that this opens read as zero.
    pub open spec fn written(self, offset: nat, value: Seq<u8>, target_size: nat) -> Seq<u8> {
        let len = if self.data.len() < offset + target_size {
            offset + target_size
        } else {
            self.data.len()
        };
        Seq::new(
            len,
            |i: int|
                if offset <= i < offset + target_size {
                    if i - offset < value.len() {
                        value[i - offset]
                    } else {
                        0u8
                    }
                } else if i < self.data.len() {
                    self.data[i]
                } else {
                    0u8
                },
        )
    }

    /// Writing `target_size` bytes at `offset`. Nothing happens for a size of
    /// zero. A write whose end would pass the limit (or `usize`) fails with
    /// `NotSupported` and changes nothing.
    pub open spec fn set(self, offset: usize, value: Seq<u8>, target_size: usize) -> (
        MemoryView,
        Result<(), ExitFatal>,
    ) {
        if target_size == 0 {
            (self, Ok(()))
        } else if offset + target_size > self.limit {
            (self, Err(ExitFatal::NotSupported))
        } else {
            (
                MemoryView { data: self.written(offset as nat, value, target_size as nat), ..self },
                Ok(()),
            )
        }
    }

    /// Making the visible length reach `end`, rounded up to a multiple of 32.
    /// The length never shrinks. Where the rounded end is `2^256` or more the
    /// result is `InvalidRange` and nothing changes.
    pub open spec fn resize_end(self, end: Word) -> (MemoryView, Result<(), ExitError>) {
        if end.value() <= self.effective_len.value() {
            (self, Ok(()))
        } else if ceil32(end.value()) >= modulus() {
            (self, Err(ExitError::InvalidRange))
        } else {
            (MemoryView { effective_len: Word::from_nat(ceil32(end.value())), ..self }, Ok(()))
        }
    }

    /// Making the visible length cover `len` bytes from `offset` on. Nothing
    /// happens for a length of zero. Where `offset + len` is `2^256` or more
    /// the result is `InvalidRange`.
    pub open spec fn resize_offset(self, offset: Word, len: Word) -> (
        MemoryView,
        Result<(), ExitError>,
    ) {
        if len.value() == 0 {
            (self, Ok(()))
        } else if offset.value() + len.value() >= modulus() {
            (self, Err(ExitError::InvalidRange))
        } else {
            self.resize_end(Word::from_nat(offset.value() + len.value()))
        }
    }

    /// The part of `data` that a copy of `len` bytes from `data_offset` on
    /// reads: empty where the range starts beyond the data or ends beyond
    /// `usize`.
    pub open spec fn copy_source(data: Seq<u8>, data_offset: Word, len: Word) -> Seq<u8> {
        let end = data_offset.value() + len.value();
        if end > usize::MAX || data_offset.value() > data.len() {
            Seq::empty()
        } else if end < data.len() {
            data.subrange(data_offset.value() as int, end as int)
        } else {
            data.subrange(data_offset.value() as int, data.len() as int)
        }
    }

    /// Copying `len` bytes of `data`, from `data_offset` on, to
    /// `memory_offset`; what lies beyond `data` is written as zero. Nothing
    /// happens for a length of zero. Where the offset in memory or the
    /// length does not fit `usize`, or the write fails, the result is
    /// `NotSupported`.
    pub open spec fn copy_large(
        self,
        memory_offset: Word,
        data_offset: Word,
        len: Word,
        data: Seq<u8>,
    ) -> (MemoryView, Result<(), ExitFatal>) {
        if len.value() == 0 {
            (self, Ok(()))
        } else if memory_offset.value() > usize::MAX || len.value() > usize::MAX {
            (self, Err(ExitFatal::NotSupported))
        } else {
            self.set(
                memory_offset.value() as usize,
                MemoryView::copy_source(data, data_offset, len),
                len.value() as usize,
            )
        }
    }
}

/// The memory of a machine.
#[derive(Clone, Debug)]
pub struct Memory {
    data: Vec<u8>,
    effective_len: Word,
    limit: usize,
}

impl View for Memory {
    type V = MemoryView;

    closed spec fn view(&self) -> MemoryView {
        MemoryView { data: self.data@, effective_len: self.effective_len, limit: self.limit }
    }
}

impl Memory {
    /// The visible length is a multiple of 32.
    pub open spec fn wf(&self) -> bool {
        self@.effective_len.value() % 32 == 0
    }

    /// An empty memory with the given limit.
    pub fn new(limit: usize) -> (r: Self)
        ensures
            r@ == (MemoryView { data: Seq::empty(), effective_len: Word::spec_zero(), limit }),
            r.wf(),
    {
        Self { data: Vec::new(), effective_len: Word::zero(), limit }
    }

    /// The limit that writes may not pass.
    pub fn limit(&self) -> (r: usize)
        ensures
            r == self@.limit,
    {
        self.limit
    }

    /// The number of bytes written so far.
    pub fn len(&self) -> (r: usize)
        ensures
            r == self@.data.len(),
    {
        self.data.len()
    }

    /// The length that the program sees.
    pub fn effective_len(&self) -> (r: Word)
        ensures
            r == self@.effective_len,
    {
        self.effective_len
    }

    /// Whether nothing was written so far.
    pub fn is_empty(&self) -> (r: bool)
        ensures
            r == (self@.data.len() == 0),
    {
        self.data.len() == 0
    }

    /// Makes the visible length cover `len` bytes from `offset` on.
    pub fn resize_offset(&mut self, offset: Word, len: Word) -> (r: Result<(), ExitError>)
        ensures
            (final(self)@, r) == old(self)@.resize_offset(offset, len),
            old(self).wf() ==> final(self).wf(),
    {
        if len.is_zero() {
            return Ok(());
        }
        match offset.checked_add(len) {
            Some(end) => {
                proof {
                    lemma_word_of_value(end);
                }
                self.resize_end(end)
            },
            None => Err(ExitError::InvalidRange),
        }
    }

    /// Makes the visible length reach `end`, rounded up to a multiple of 32.
    pub fn resize_end(&mut self, end: Word) -> (r: Result<(), ExitError>)
        ensures
            (final(self)@, r) == old(self)@.resize_end(end),
            old(self).wf() ==> final(self).wf(),
    {
        if !end.gt(&self.effective_len) {
            return Ok(());
        }
        let low: u64 = end.low_u64() % 32;
        proof {
            lemma_word_of_value(end);
            let high: int = end.l1 + 0x1_0000_0000_0000_0000int * (end.l2
                + 0x1_0000_0000_0000_0000int * end.l3);
            assert(end.value() == 32 * (0x800_0000_0000_0000int * high) + end.l0);
            vstd::arithmetic::div_mod::lemma_mod_multiples_vanish(
                0x800_0000_0000_0000int * high,
                end.l0 as int,
                32,
            );
            assert(end.value() % 32 == low);
        }
        if low == 0 {
            self.effective_len = end;
            Ok(())
        } else {
            match end.checked_add(Word::from_u64(32 - low)) {
                Some(rounded) => {
                    proof {
                        lemma_word_of_value(rounded);
                        assert(rounded.value() == ceil32(end.value()));
                        assert(rounded.value() % 32 == 0) by {
                            let v = end.value() as int;
                            vstd::arithmetic::div_mod::lemma_fundamental_div_mod(v, 32);
                            assert(v + 32 - v % 32 == 32 * (v / 32 + 1));
                            vstd::arithmetic::div_mod::lemma_mod_multiples_basic(v / 32 + 1, 32);
                            assert((v / 32 + 1) * 32 == 32 * (v / 32 + 1));
                        }
                    }
                    self.effective_len = rounded;
                    Ok(())
                },
                None => Err(ExitError::InvalidRange),
            }
        }
    }

    /// `size` bytes from `offset` on, zero beyond what was written.
    pub fn get(&self, offset: usize, size: usize) -> (r: Vec<u8>)
        ensures
            r@ == self@.get(offset as nat, size as nat),
    {
        let mut ret: Vec<u8> = Vec::new();
        let len = self.data.len();
        let mut index: usize = 0;
        while index < size
            invariant
                index <= size,
                len == self.data@.len(),
                ret.len() == index,
                forall|i: int|
                    0 <= i < index ==> ret@[i] == if offset + i < len {
                        self.data@[offset + i]
                    } else {
                        0u8
                    },
            decreases size - index,
        {
            if offset < len && index < len - offset {
                ret.push(self.data[offset + index]);
            } else {
                ret.push(0);
            }
            index = index + 1;
        }
        assert(ret@ =~= self@.get(offset as nat, size as nat));
        ret
    }

    /// Writes `target_size` bytes at `offset`: those of `value` as far as
    /// they reach, zero beyond them. Without a `target_size`, all of
    /// `value` is written.
    pub fn set(&mut self, offset: usize, value: &[u8], target_size: Option<usize>) -> (r: Result<
        (),
        ExitFatal,
    >)
        ensures
            (final(self)@, r) == old(self)@.set(
                offset,
                value@,
                match target_size {
                    Some(t) => t,
                    None => value@.len() as usize,
                },
            ),
            old(self).wf() ==> final(self).wf(),
    {
        let target_size: usize = match target_size {
            Some(t) => t,
            None => value.len(),
        };
        if target_size == 0 {
            return Ok(());
        }
        if target_size > usize::MAX - offset || offset + target_size > self.limit {
            return Err(ExitFatal::NotSupported);
        }
        let end: usize = offset + target_size;
        let ghost before = self.data@;
        if self.data.len() < end {
            self.data.resize(end, 0);
            assert forall|i: int| 0 <= i < before.len() implies self.data@[i] == before[i] by {
                assert(self.data@.subrange(0, before.len() as int)[i] == before[i]);
            }
        }
        let mut index: usize = 0;
        while index < target_size
            invariant
                index <= target_size,
                end == offset + target_size,
                end <= self.data@.len(),
                self.data@.len() == if before.len() < end {
                    end as nat
                } else {
                    before.len()
                },
                forall|i: int|
                    0 <= i < offset || offset + index <= i < self.data@.len() ==> self.data@[i]
                        == if i < before.len() {
                        before[i]
                    } else {
                        0u8
                    },
                forall|i: int|
                    offset <= i < offset + index ==> self.data@[i] == if i - offset < value@.len() {
                        value@[i - offset]
                    } else {
                        0u8
                    },
                self.limit == old(self).limit,
                self.effective_len == old(self).effective_len,
            decreases target_size - index,
        {
            if index < value.len() {
                self.data[offset + index] = value[index];
            } else {
                self.data[offset + index] = 0;
            }
            index = index + 1;
        }
        assert(self.data@ =~= old(self)@.written(offset as nat, value@, target_size as nat));
        Ok(())
    }

    /// Copies `len` bytes of `data`, from `data_offset` on, to
    /// `memory_offset`.
    pub fn copy_large(&mut self, memory_offset: Word, data_offset: Word, len: Word, data: &[u8]) -> (r:
        Result<(), ExitFatal>)
        ensures
            (final(self)@, r) == old(self)@.copy_large(memory_offset, data_offset, len, data@),
            old(self).wf() ==> final(self).wf(),
    {
        if len.is_zero() {
            return Ok(());
        }
        if !memory_offset.fits_usize() || !len.fits_usize() {
            return Err(ExitFatal::NotSupported);
        }
        let memory_offset: usize = memory_offset.as_usize();
        let ulen: usize = len.as_usize();
        let mut source: Vec<u8> = Vec::new();
        if data_offset.fits_usize() {
            let start: usize = data_offset.as_usize();
            if ulen <= usize::MAX - start && start <= data.len() {
                let end: usize = if start + ulen < data.len() {
                    start + ulen
                } else {
                    data.len()
                };
                let mut i: usize = start;
                while i < end
                    invariant
                        start <= i <= end,
                        end <= data@.len(),
                        source@ == data@.subrange(start as int, i as int),
                    decreases end - i,
                {
                    source.push(data[i]);
                    assert(data@.subrange(start as int, i + 1) =~= data@.subrange(
                        start as int,
                        i as int,
                    ).push(data@[i as int]));
                    i = i + 1;
                }
            }
        }
        assert(source@ =~= MemoryView::copy_source(data@, data_offset, len));
        self.set(memory_offset, source.as_slice(), Some(ulen))
    }
}

} // verus!
