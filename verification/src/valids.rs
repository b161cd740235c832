//! Which positions of a code blob are legal jump targets.

use crate::opcode::{Opcode, JUMPDEST};
use vstd::prelude::*;

verus! {

/// The position of the instruction that follows the one at `pc`: one past
/// the opcode and, for `PUSHn`, past its `n` immediate bytes.
pub open spec fn next_instruction(code: Seq<u8>, pc: int) -> int
    recommends
        0 <= pc < code.len(),
{
    pc + 1 + Opcode::spec_push_len(code[pc])
}

/// Whether a scan of `code` that reads instruction after instruction from
/// position `from` arrives exactly at position `i`. A scan that arrives at
/// the end of the code, or beyond it, stops there.
pub open spec fn scan_reaches(code: Seq<u8>, from: int, i: int) -> bool
    decreases
            (if from < i {
                i - from
            } else {
                0
            }),
{
    if from >= i || from < 0 || from >= code.len() {
        from == i
    } else {
        scan_reaches(code, from + 1 + Opcode::spec_push_len(code[from]), i)
    }
}

/// Whether position `i` of `code` lies inside the immediate bytes of a
/// `PUSHn` instruction: the scan from the start of the code skips it.
pub open spec fn in_push_immediate(code: Seq<u8>, i: int) -> bool {
    !scan_reaches(code, 0, i)
}

/// Whether position `i` of `code` is a legal jump target: it holds the
/// `JUMPDEST` opcode and is not inside a `PUSH` immediate.
pub open spec fn is_jump_target(code: Seq<u8>, i: int) -> bool {
    0 <= i < code.len() && code[i] == JUMPDEST && !in_push_immediate(code, i)
}

/// A scan that arrives at `mid` arrives at a later position exactly if the
/// scan from `mid` does.
pub proof fn lemma_scan_continues(code: Seq<u8>, from: int, mid: int, i: int)
    requires
        0 <= from <= mid <= i,
        scan_reaches(code, from, mid),
    ensures
        scan_reaches(code, from, i) == scan_reaches(code, mid, i),
    decreases mid - from,
{
    if from < mid {
        let next = from + 1 + Opcode::spec_push_len(code[from]);
        assert(from < code.len());
        assert(scan_reaches(code, next, mid));
        assert(next <= mid);
        lemma_scan_continues(code, next, mid, i);
    }
}

/// The scan from the start skips every position between an instruction and
/// the next one, and arrives at the next one.
pub proof fn lemma_scan_step(code: Seq<u8>, pc: int)
    requires
        0 <= pc < code.len(),
        scan_reaches(code, 0, pc),
    ensures
        scan_reaches(code, 0, next_instruction(code, pc)),
        forall|j: int| pc < j < next_instruction(code, pc) ==> !scan_reaches(code, 0, j),
{
    let next = next_instruction(code, pc);
    lemma_scan_continues(code, 0, pc, next);
    assert(scan_reaches(code, next, next));
    assert(scan_reaches(code, pc, next));
    assert forall|j: int| pc < j < next implies !scan_reaches(code, 0, j) by {
        lemma_scan_continues(code, 0, pc, j);
        assert(!scan_reaches(code, next, j));
        assert(!scan_reaches(code, pc, j));
    }
}

/// The validity map of one code blob.
#[derive(Clone, Debug)]
pub struct Valids {
    data: Vec<bool>,
}

impl Valids {
    /// The code that the map was made for has this many bytes.
    pub closed spec fn spec_len(&self) -> nat {
        self.data@.len()
    }

    /// Whether the map marks position `i`.
    pub closed spec fn marks(&self, i: int) -> bool {
        0 <= i < self.data@.len() && self.data@[i]
    }

    /// The map is the map of `code`: it marks exactly the legal jump targets.
    pub open spec fn is_map_of(&self, code: Seq<u8>) -> bool {
        &&& self.spec_len() == code.len()
        &&& forall|i: int| self.marks(i) == is_jump_target(code, i)
    }

    /// Builds the map of `code` in one pass from left to right.
    pub fn new(code: &[u8]) -> (r: Self)
        ensures
            r.is_map_of(code@),
    {
        let n = code.len();
        let mut data: Vec<bool> = Vec::new();
        let mut k: usize = 0;
        while k < n
            invariant
                k <= n,
                data.len() == k,
                forall|j: int| 0 <= j < k ==> !data@[j],
            decreases n - k,
        {
            data.push(false);
            k = k + 1;
        }
        let mut i: usize = 0;
        let ghost pos: int = 0;
        while i < n
            invariant
                n == code@.len(),
                data.len() == n,
                scan_reaches(code@, 0, pos),
                i <= n,
                i <= pos,
                i < n ==> pos == i,
                forall|j: int| 0 <= j < i ==> data@[j] == is_jump_target(code@, j),
                forall|j: int| i <= j < n ==> !data@[j],
                forall|j: int| i <= j < pos ==> !scan_reaches(code@, 0, j),
            decreases n - i,
        {
            let opcode = code[i];
            proof {
                lemma_scan_step(code@, i as int);
                pos = next_instruction(code@, i as int);
            }
            if opcode == JUMPDEST {
                data[i] = true;
                i = i + 1;
            } else {
                match Opcode::is_push(opcode) {
                    Some(v) => {
                        let skip: usize = v as usize + 1;
                        if skip >= n - i {
                            i = n;
                        } else {
                            i = i + skip;
                        }
                    },
                    None => {
                        i = i + 1;
                    },
                }
            }
        }
        Valids { data }
    }

    /// The length of the code that the map was made for.
    pub fn len(&self) -> (r: usize)
        ensures
            r == self.spec_len(),
    {
        self.data.len()
    }

    /// Whether the map was made for empty code.
    pub fn is_empty(&self) -> (r: bool)
        ensures
            r == (self.spec_len() == 0),
    {
        self.data.len() == 0
    }

    /// Whether `position` is a legal jump target.
    pub fn is_valid(&self, position: usize) -> (r: bool)
        ensures
            r == self.marks(position as int),
    {
        if position >= self.data.len() {
            return false;
        }
        self.data[position]
    }
}

/// Two maps of the same code mark the same positions.
pub proof fn lemma_valids_deterministic(a: Valids, b: Valids, code: Seq<u8>)
    requires
        a.is_map_of(code),
        b.is_map_of(code),
    ensures
        a.spec_len() == b.spec_len(),
        forall|i: int| a.marks(i) == b.marks(i),
{
}

/// A byte inside the immediate of a `PUSH` is no jump target, whatever its
/// value.
pub proof fn lemma_push_immediate_is_no_target(code: Seq<u8>, push_at: int, i: int)
    requires
        0 <= push_at < code.len(),
        scan_reaches(code, 0, push_at),
        push_at < i <= push_at + Opcode::spec_push_len(code[push_at]),
    ensures
        in_push_immediate(code, i),
        !is_jump_target(code, i),
{
    lemma_scan_step(code, push_at);
}

} // verus!
