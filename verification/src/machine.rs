use vstd::prelude::*;

verus! {

use vstd::math::max;
use crate::word::Word;
use crate::bytes::read_byte;

/// Number of 32-byte words needed to cover `end` bytes of memory.
pub open spec fn words_for(end: nat) -> nat {
    (end + 31) / 32
}

/// The mutable per-execution machine state: operand stack, linear memory
/// with its active-word watermark, program counter and output buffer.
pub struct MachineState {
    pub stack: Vec<Word>,
    pub memory: Vec<u8>,
    pub active_words: usize,
    pub pc: usize,
    pub output: Vec<u8>,
}

impl MachineState {
    pub fn new() -> (r: MachineState)
        ensures
            r.stack@.len() == 0,
            r.memory@.len() == 0,
            r.active_words == 0,
            r.pc == 0,
            r.output@.len() == 0,
    {
        MachineState {
            stack: Vec::new(),
            memory: Vec::new(),
            active_words: 0,
            pc: 0,
            output: Vec::new(),
        }
    }

    /// Push appends to the logical top of the stack; it never fails.
    pub fn push(&mut self, w: Word)
        ensures
            final(self).stack@ == old(self).stack@.push(w),
            final(self).memory@ == old(self).memory@,
            final(self).active_words == old(self).active_words,
            final(self).pc == old(self).pc,
            final(self).output@ == old(self).output@,
    {
        self.stack.push(w);
    }

    /// Remove and return the top `n` stack items, top first.  When fewer
    /// than `n` items are present it fails and leaves the whole machine
    /// state byte-for-byte unchanged.
    pub fn pop_n(&mut self, n: usize) -> (r: Option<Vec<Word>>)
        ensures
            old(self).stack@.len() < n ==> r is None && *final(self) == *old(self),
            old(self).stack@.len() >= n ==> (r matches Some(v) && v@.len() == n && (forall|
                k: int,
            |
                0 <= k < n ==> v@[k] == old(self).stack@[old(self).stack@.len() - 1 - k])
                && final(self).stack@ == old(self).stack@.take(
                old(self).stack@.len() - n as int,
            )),
            final(self).memory@ == old(self).memory@,
            final(self).active_words == old(self).active_words,
            final(self).pc == old(self).pc,
            final(self).output@ == old(self).output@,
    {
        if self.stack.len() < n {
            return None;
        }
        let ghost s0 = self.stack@;
        let mut v: Vec<Word> = Vec::new();
        let mut k: usize = 0;
        while k < n
            invariant
                k <= n,
                n <= s0.len(),
                v@.len() == k,
                self.stack@ == s0.take(s0.len() - k as int),
                self.memory@ == old(self).memory@,
                self.active_words == old(self).active_words,
                self.pc == old(self).pc,
                self.output@ == old(self).output@,
                forall|i: int| 0 <= i < k ==> v@[i] == s0[s0.len() - 1 - i],
            decreases n - k,
        {
            proof {
                assert(s0.take(s0.len() - k as int).drop_last() =~= s0.take(
                    s0.len() - (k + 1) as int,
                ));
            }
            let w = self.stack.pop().unwrap();
            v.push(w);
            k = k + 1;
        }
        Some(v)
    }

    /// Raise the active-word watermark to cover `end` bytes; the watermark
    /// is monotonic and never shrinks.
    pub fn update_active_words(&mut self, end: usize)
        ensures
            final(self).active_words == max(
                old(self).active_words as int,
                words_for(end as nat) as int,
            ),
            final(self).active_words >= old(self).active_words,
            final(self).stack@ == old(self).stack@,
            final(self).memory@ == old(self).memory@,
            final(self).pc == old(self).pc,
            final(self).output@ == old(self).output@,
    {
        let w = end / 32 + if end % 32 != 0 {
            1
        } else {
            0
        };
        proof {
            let q = end as nat / 32;
            let r = end as nat % 32;
            assert((end as nat + 31) / 32 == q + (if r != 0 {
                1nat
            } else {
                0nat
            })) by (nonlinear_arith)
                requires
                    q == end as nat / 32,
                    r == end as nat % 32,
            ;
        }
        if w > self.active_words {
            self.active_words = w;
        }
    }
}

/// The machine-state effect of one copy-style opcode: memory holds the
/// copied slice (zero-filled past the source's end) and is otherwise
/// preserved, and the watermark now covers the destination end.
pub open spec fn copy_applied(
    pre: MachineState,
    post: MachineState,
    src: Seq<u8>,
    dest: nat,
    off: nat,
    n: nat,
) -> bool {
    post.memory@.len() == max(pre.memory@.len() as int, (dest + n) as int) && (forall|j: int|
        0 <= j < post.memory@.len() ==> post.memory@[j] == (if dest <= j < dest + n {
            read_byte(src, off + (j - dest))
        } else {
            read_byte(pre.memory@, j)
        })) && post.active_words == max(pre.active_words as int, words_for((dest + n) as nat) as int)
}

/// Copy `n` bytes into memory at `dest`, reading `src` from `off` with the
/// zero-fill-on-short-read rule, growing the memory with zeros as needed.
pub fn copy_padded(mem: &mut Vec<u8>, src: &Vec<u8>, dest: usize, off: usize, n: usize)
    requires
        dest + n <= usize::MAX,
    ensures
        final(mem)@.len() == max(old(mem)@.len() as int, dest + n),
        forall|j: int|
            0 <= j < final(mem)@.len() ==> final(mem)@[j] == (if dest <= j < dest + n {
                read_byte(src@, off + (j - dest))
            } else {
                read_byte(old(mem)@, j)
            }),
{
    let end = dest + n;
    while mem.len() < end
        invariant
            old(mem)@.len() <= mem@.len() <= max(old(mem)@.len() as int, end as int),
            forall|j: int| 0 <= j < mem@.len() ==> mem@[j] == read_byte(old(mem)@, j),
        decreases end - mem@.len(),
    {
        mem.push(0);
    }
    let mut i: usize = 0;
    while i < n
        invariant
            i <= n,
            dest + n <= usize::MAX,
            mem@.len() == max(old(mem)@.len() as int, dest + n),
            forall|j: int|
                0 <= j < mem@.len() ==> mem@[j] == (if dest <= j < dest + i {
                    read_byte(src@, off + (j - dest))
                } else {
                    read_byte(old(mem)@, j)
                }),
        decreases n - i,
    {
        let b = if off < src.len() && i < src.len() - off {
            src[off + i]
        } else {
            0
        };
        mem.set(dest + i, b);
        i = i + 1;
    }
}

} // verus!
