//! An instruction-level simulator for RISC240, a small 16-bit RISC
//! instruction set: 8 general registers, a 64 KiB byte-addressed memory
//! accessed in aligned big-endian words, four condition-code flags, and a
//! fetch-decode-execute control unit that runs until a STOP instruction.

pub mod cpu;
pub mod mem;
pub mod reg;
