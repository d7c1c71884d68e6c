//! The memory model.
//!
//! RISC240 has a 16-bit address space (65536 bytes), where each address is
//! byte-addressable, but all accesses are 16-bit words.  An access applies
//! *automatic word alignment*, forcing the least-significant address bit to
//! zero, so `M[0x0052]` and `M[0x0053]` name the same word.  Words are
//! big-endian: the byte at the aligned address holds the high 8 bits.

use vstd::prelude::*;

verus! {

/// The number of bytes in the address space.
pub const MEM_SIZE: usize = 0x10000;

/// The word-aligned address that an access at `addr` actually touches.
pub open spec fn align(addr: u16) -> u16 {
    addr & 0xFFFE
}

/// The big-endian 16-bit word stored at the alignment of `addr`.
pub open spec fn word_at(mem: Seq<u8>, addr: u16) -> u16
    recommends
        mem.len() == MEM_SIZE,
{
    ((mem[align(addr) as int] as u16) << 8) | (mem[align(addr) as int + 1] as u16)
}

/// The memory contents after storing `value` as a big-endian word at the
/// alignment of `addr`.
pub open spec fn word_write(mem: Seq<u8>, addr: u16, value: u16) -> Seq<u8>
    recommends
        mem.len() == MEM_SIZE,
{
    mem.update(align(addr) as int, (value >> 8) as u8).update(
        align(addr) as int + 1,
        (value & 0x00FF) as u8,
    )
}

/// The aligned address is even and leaves room for the low byte at
/// `align(addr) + 1`.
proof fn lemma_align_bounds(addr: u16)
    by (bit_vector)
    ensures
        align(addr) <= 0xFFFE,
        align(addr) <= addr,
{
}

/// Representation of memory: a flat byte array spanning the whole address
/// space, read and written in aligned 16-bit words.
pub struct Mem {
    data: Vec<u8>,
}

impl View for Mem {
    type V = Seq<u8>;

    closed spec fn view(&self) -> Seq<u8> {
        self.data@
    }
}

impl Mem {
    /// Well-formedness: the backing storage spans the address space exactly.
    pub open spec fn wf(&self) -> bool {
        self@.len() == MEM_SIZE
    }

    /// Creates a new, zero-initialized memory module.
    pub fn new() -> (r: Mem)
        ensures
            r.wf(),
            forall|i: int| 0 <= i < MEM_SIZE ==> r@[i] == 0u8,
    {
        let mut data: Vec<u8> = Vec::new();
        let mut i: usize = 0;
        while i < MEM_SIZE
            invariant
                i <= MEM_SIZE,
                data@.len() == i,
                forall|j: int| 0 <= j < i ==> data@[j] == 0u8,
            decreases MEM_SIZE - i,
        {
            data.push(0x00);
            i = i + 1;
        }
        Mem { data }
    }

    /// Reads the word at the alignment of `addr`.
    pub fn read_word(&self, addr: u16) -> (r: u16)
        requires
            self.wf(),
        ensures
            r == word_at(self@, addr),
    {
        proof {
            lemma_align_bounds(addr);
        }
        let a = (addr & 0xFFFE) as usize;
        let upper = self.data[a];
        let lower = self.data[a + 1];
        ((upper as u16) << 8) | (lower as u16)
    }

    /// Writes `value` as a word at the alignment of `addr`.
    pub fn write_word(&mut self, addr: u16, value: u16)
        requires
            old(self).wf(),
        ensures
            final(self).wf(),
            final(self)@ == word_write(old(self)@, addr, value),
    {
        proof {
            lemma_align_bounds(addr);
        }
        let a = (addr & 0xFFFE) as usize;
        let upper = (value >> 8) as u8;
        let lower = (value & 0x00FF) as u8;
        self.data[a] = upper;
        self.data[a + 1] = lower;
    }
}

/// Splitting a word into its two big-endian bytes and reassembling them
/// gives the word back.
proof fn lemma_word_bytes(value: u16)
    by (bit_vector)
    ensures
        (((value >> 8) as u8 as u16) << 8) | ((value & 0x00FF) as u8 as u16) == value,
{
}

/// An address and its odd companion align to the same word.
proof fn lemma_align_or_one(addr: u16)
    by (bit_vector)
    ensures
        align(addr | 1) == align(addr),
{
}

/// The word-alignment invariant: reading back a just-written word yields the
/// written value; a write (or read) at `addr` and at `addr | 1` touch the
/// same word, so they are indistinguishable.
pub proof fn lemma_word_round_trip(mem: Seq<u8>, addr: u16, value: u16)
    requires
        mem.len() == MEM_SIZE,
    ensures
        word_at(word_write(mem, addr, value), addr) == value,
        word_write(mem, addr, value) == word_write(mem, addr | 1, value),
        word_at(mem, addr) == word_at(mem, addr | 1),
{
    lemma_align_bounds(addr);
    lemma_align_or_one(addr);
    lemma_word_bytes(value);
}

} // verus!
