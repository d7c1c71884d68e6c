//! The heart of the RISC240 ISA: instruction decoding, the condition-code
//! unit, and the fetch-decode-execute control unit.

use vstd::prelude::*;

use crate::mem::{word_at, word_write, Mem, MEM_SIZE};
use crate::reg::{rf_write, Reg, RegFile};

verus! {

// ---------------------------------------------------------------------------
// Instruction decoding
// ---------------------------------------------------------------------------
//
// An instruction word packs its fields as
//   [15:9] opcode   [8:6] rd   [5:3] rs1   [2:0] rs2
// and every 16-bit pattern decodes to *some* instruction; an opcode that
// names no defined operation executes as a no-op.

/// The opcode field of an instruction word.
pub open spec fn spec_opcode(word: u16) -> u8 {
    ((word & 0xFE00) >> 9) as u8
}

/// The destination-register field of an instruction word.
pub open spec fn spec_rd(word: u16) -> u8 {
    ((word & 0x01C0) >> 6) as u8
}

/// The first source-register field of an instruction word.
pub open spec fn spec_rs1(word: u16) -> u8 {
    ((word & 0x0038) >> 3) as u8
}

/// The second source-register field of an instruction word; the same bits
/// also encode the shift amount of the immediate-shift instructions.
pub open spec fn spec_rs2(word: u16) -> u8 {
    (word & 0x0007) as u8
}

/// Broken-down interpretation of a RISC240 instruction.
pub struct Instr {
    /// The actual type of instruction.
    pub opcode: u8,
    /// Destination register.
    pub rd: u8,
    /// Source register 1.
    pub rs1: u8,
    /// Source register 2.
    pub rs2: u8,
}

/// The decoded form of an instruction word.
pub open spec fn spec_decode(word: u16) -> Instr {
    Instr {
        opcode: spec_opcode(word),
        rd: spec_rd(word),
        rs1: spec_rs1(word),
        rs2: spec_rs2(word),
    }
}

/// The instruction word that carries the given fields.
pub open spec fn spec_encode(opcode: u8, rd: u8, rs1: u8, rs2: u8) -> u16 {
    (((opcode as u16) << 9) | ((rd as u16) << 6)) | (((rs1 as u16) << 3) | (rs2 as u16))
}

/// Every decoded field lies in its range: 7 bits of opcode, 3 bits each for
/// the register selectors.
proof fn lemma_decode_ranges(word: u16)
    by (bit_vector)
    ensures
        (word & 0xFE00) >> 9 < 0x80,
        (word & 0x01C0) >> 6 < 8,
        (word & 0x0038) >> 3 < 8,
        word & 0x0007 < 8,
{
}

impl Instr {
    /// Forms an `Instr` from a 16-bit instruction word: a total, pure
    /// decoding with no failure case.
    pub fn new(word: u16) -> (r: Instr)
        ensures
            r == spec_decode(word),
            r.opcode < 0x80,
            r.rd < 8,
            r.rs1 < 8,
            r.rs2 < 8,
    {
        proof {
            lemma_decode_ranges(word);
        }
        Instr {
            opcode: ((word & 0xFE00) >> 9) as u8,
            rd: ((word & 0x01C0) >> 6) as u8,
            rs1: ((word & 0x0038) >> 3) as u8,
            rs2: (word & 0x0007) as u8,
        }
    }

    /// Composes an instruction word from its fields, the inverse of
    /// decoding for in-range fields.
    pub fn encode(opcode: u8, rd: u8, rs1: u8, rs2: u8) -> (r: u16)
        requires
            opcode < 0x80,
            rd < 8,
            rs1 < 8,
            rs2 < 8,
        ensures
            r == spec_encode(opcode, rd, rs1, rs2),
            spec_decode(r) == (Instr { opcode, rd, rs1, rs2 }),
    {
        proof {
            lemma_decode_encode(opcode, rd, rs1, rs2);
        }
        (((opcode as u16) << 9) | ((rd as u16) << 6)) | (((rs1 as u16) << 3) | (rs2 as u16))
    }
}

/// Decoder round-trip: an instruction word composed from in-range fields
/// decodes back to exactly those fields.
pub proof fn lemma_decode_encode(opcode: u8, rd: u8, rs1: u8, rs2: u8)
    requires
        opcode < 0x80,
        rd < 8,
        rs1 < 8,
        rs2 < 8,
    ensures
        spec_decode(spec_encode(opcode, rd, rs1, rs2)) == (Instr { opcode, rd, rs1, rs2 }),
{
    let w = spec_encode(opcode, rd, rs1, rs2);
    assert(spec_opcode(w) == opcode && spec_rd(w) == rd && spec_rs1(w) == rs1 && spec_rs2(w)
        == rs2) by (bit_vector)
        requires
            opcode < 0x80 && rd < 8 && rs1 < 8 && rs2 < 8 && w == spec_encode(
                opcode,
                rd,
                rs1,
                rs2,
            ),
    ;
}

// ---------------------------------------------------------------------------
// Condition codes
// ---------------------------------------------------------------------------

/// A selector naming one condition-code flag, or all of them, or none.
pub enum ConditionCode {
    Z,
    C,
    N,
    V,
    ALL,
    NONE,
}

/// The four condition-code flags as mathematical booleans: Zero, Carry,
/// Negative, Overflow.
#[verifier::ext_equal]
pub ghost struct Flags {
    pub z: bool,
    pub c: bool,
    pub n: bool,
    pub v: bool,
}

/// Whether a selector covers the Zero flag.
pub open spec fn touches_z(code: ConditionCode) -> bool {
    code == ConditionCode::Z || code == ConditionCode::ALL
}

/// Whether a selector covers the Carry flag.
pub open spec fn touches_c(code: ConditionCode) -> bool {
    code == ConditionCode::C || code == ConditionCode::ALL
}

/// Whether a selector covers the Negative flag.
pub open spec fn touches_n(code: ConditionCode) -> bool {
    code == ConditionCode::N || code == ConditionCode::ALL
}

/// Whether a selector covers the Overflow flag.
pub open spec fn touches_v(code: ConditionCode) -> bool {
    code == ConditionCode::V || code == ConditionCode::ALL
}

/// Whether any flag covered by `code` is set in `f`; this is what a `get`
/// of that selector reports.
pub open spec fn cc_holds(f: Flags, code: ConditionCode) -> bool {
    ||| touches_z(code) && f.z
    ||| touches_c(code) && f.c
    ||| touches_n(code) && f.n
    ||| touches_v(code) && f.v
}

/// The condition-code unit: one bit per flag, packed into a nibble.
pub struct CC {
    codes: u8,
}

impl View for CC {
    type V = Flags;

    closed spec fn view(&self) -> Flags {
        Flags {
            z: self.codes & 0b1000 != 0,
            c: self.codes & 0b0100 != 0,
            n: self.codes & 0b0010 != 0,
            v: self.codes & 0b0001 != 0,
        }
    }
}

/// The bit mask that a selector stands for.
spec fn flag_mask(code: ConditionCode) -> u8 {
    match code {
        ConditionCode::Z => 0b1000,
        ConditionCode::C => 0b0100,
        ConditionCode::N => 0b0010,
        ConditionCode::V => 0b0001,
        ConditionCode::ALL => 0b1111,
        ConditionCode::NONE => 0b0000,
    }
}

/// Which of the four flag bits each selector mask carries.
proof fn lemma_mask_bits(m: u8)
    by (bit_vector)
    requires
        m == 0b1000 || m == 0b0100 || m == 0b0010 || m == 0b0001 || m == 0b1111 || m == 0b0000,
    ensures
        (m & 0b1000 != 0) == (m == 0b1000 || m == 0b1111),
        (m & 0b0100 != 0) == (m == 0b0100 || m == 0b1111),
        (m & 0b0010 != 0) == (m == 0b0010 || m == 0b1111),
        (m & 0b0001 != 0) == (m == 0b0001 || m == 0b1111),
{
}

/// Relates a selector's mask bits to the `touches_*` predicates.
proof fn lemma_flag_mask_bits(code: ConditionCode)
    ensures
        (flag_mask(code) & 0b1000 != 0) == touches_z(code),
        (flag_mask(code) & 0b0100 != 0) == touches_c(code),
        (flag_mask(code) & 0b0010 != 0) == touches_n(code),
        (flag_mask(code) & 0b0001 != 0) == touches_v(code),
{
    lemma_mask_bits(flag_mask(code));
}

/// Bitwise facts about testing, setting and clearing flag bits in a nibble.
proof fn lemma_nibble_ops(x: u8, m: u8)
    by (bit_vector)
    ensures
        ((x & m) != 0) == ((x & 0b1000 != 0) && (m & 0b1000 != 0) || (x & 0b0100 != 0) && (m
            & 0b0100 != 0) || (x & 0b0010 != 0) && (m & 0b0010 != 0) || (x & 0b0001 != 0) && (m
            & 0b0001 != 0) || (x & !0b1111u8) & m != 0),
        ((x | m) & 0b1000 != 0) == ((x & 0b1000 != 0) || (m & 0b1000 != 0)),
        ((x | m) & 0b0100 != 0) == ((x & 0b0100 != 0) || (m & 0b0100 != 0)),
        ((x | m) & 0b0010 != 0) == ((x & 0b0010 != 0) || (m & 0b0010 != 0)),
        ((x | m) & 0b0001 != 0) == ((x & 0b0001 != 0) || (m & 0b0001 != 0)),
        ((x & !m) & 0b1000 != 0) == ((x & 0b1000 != 0) && (m & 0b1000 == 0)),
        ((x & !m) & 0b0100 != 0) == ((x & 0b0100 != 0) && (m & 0b0100 == 0)),
        ((x & !m) & 0b0010 != 0) == ((x & 0b0010 != 0) && (m & 0b0010 == 0)),
        ((x & !m) & 0b0001 != 0) == ((x & 0b0001 != 0) && (m & 0b0001 == 0)),
        m == 0b1000 || m == 0b0100 || m == 0b0010 || m == 0b0001 || m == 0b1111 || m == 0b0000
            ==> (x & !0b1111u8) & m == 0,
{
}

impl CC {
    /// Creates a new condition-code unit with every flag clear.
    pub fn new() -> (r: CC)
        ensures
            r@ == (Flags { z: false, c: false, n: false, v: false }),
    {
        proof {
            assert(0b0000u8 & 0b1000 == 0 && 0b0000u8 & 0b0100 == 0 && 0b0000u8 & 0b0010 == 0
                && 0b0000u8 & 0b0001 == 0) by (bit_vector);
        }
        CC { codes: 0b0000u8 }
    }

    /// The bit mask behind a selector.
    fn flag(code: ConditionCode) -> (r: u8)
        ensures
            r == flag_mask(code),
    {
        match code {
            ConditionCode::Z => 0b1000,
            ConditionCode::C => 0b0100,
            ConditionCode::N => 0b0010,
            ConditionCode::V => 0b0001,
            ConditionCode::ALL => 0b1111,
            ConditionCode::NONE => 0b0000,
        }
    }

    /// Reports whether any flag covered by the selector is set.
    pub fn get(&self, code: ConditionCode) -> (r: bool)
        ensures
            r == cc_holds(self@, code),
    {
        proof {
            lemma_flag_mask_bits(code);
            lemma_nibble_ops(self.codes, flag_mask(code));
        }
        self.codes & CC::flag(code) != 0b0000u8
    }

    /// Sets every flag covered by the selector; the others keep their value.
    pub fn set(&mut self, code: ConditionCode)
        ensures
            final(self)@.z == (old(self)@.z || touches_z(code)),
            final(self)@.c == (old(self)@.c || touches_c(code)),
            final(self)@.n == (old(self)@.n || touches_n(code)),
            final(self)@.v == (old(self)@.v || touches_v(code)),
    {
        proof {
            lemma_flag_mask_bits(code);
            lemma_nibble_ops(self.codes, flag_mask(code));
        }
        self.codes = self.codes | CC::flag(code);
    }

    /// Clears every flag covered by the selector; the others keep their
    /// value.
    pub fn reset(&mut self, code: ConditionCode)
        ensures
            final(self)@.z == (old(self)@.z && !touches_z(code)),
            final(self)@.c == (old(self)@.c && !touches_c(code)),
            final(self)@.n == (old(self)@.n && !touches_n(code)),
            final(self)@.v == (old(self)@.v && !touches_v(code)),
    {
        proof {
            lemma_flag_mask_bits(code);
            lemma_nibble_ops(self.codes, flag_mask(code));
        }
        self.codes = self.codes & !CC::flag(code);
    }

    /// Sets every flag covered by the selector to `on`; the others keep
    /// their value.
    fn assign(&mut self, code: ConditionCode, on: bool)
        ensures
            final(self)@.z == (if touches_z(code) { on } else { old(self)@.z }),
            final(self)@.c == (if touches_c(code) { on } else { old(self)@.c }),
            final(self)@.n == (if touches_n(code) { on } else { old(self)@.n }),
            final(self)@.v == (if touches_v(code) { on } else { old(self)@.v }),
    {
        if on {
            self.set(code);
        } else {
            self.reset(code);
        }
    }
}

// ---------------------------------------------------------------------------
// Opcodes
// ---------------------------------------------------------------------------

pub const OP_ADD: u8 = 0x00;
pub const OP_SUB: u8 = 0x08;
pub const OP_MV: u8 = 0x10;
pub const OP_LW: u8 = 0x14;
/// ADDI also serves as LI: loading an immediate is ADDI with `rs1 = r0`.
pub const OP_ADDI: u8 = 0x18;
pub const OP_SW: u8 = 0x1C;
pub const OP_SLT: u8 = 0x28;
pub const OP_SLTI: u8 = 0x29;
pub const OP_NOT: u8 = 0x40;
pub const OP_AND: u8 = 0x48;
pub const OP_BRN: u8 = 0x4C;
pub const OP_OR: u8 = 0x50;
pub const OP_BRC: u8 = 0x54;
pub const OP_XOR: u8 = 0x58;
pub const OP_BRV: u8 = 0x5C;
pub const OP_SLL: u8 = 0x60;
pub const OP_SLLI: u8 = 0x61;
pub const OP_BRZ: u8 = 0x64;
pub const OP_BRNZ: u8 = 0x6C;
pub const OP_SRL: u8 = 0x70;
pub const OP_SRLI: u8 = 0x71;
pub const OP_SRA: u8 = 0x78;
pub const OP_SRAI: u8 = 0x79;
pub const OP_BRA: u8 = 0x7C;
pub const OP_STOP: u8 = 0x7F;

// ---------------------------------------------------------------------------
// Arithmetic model
// ---------------------------------------------------------------------------

/// Reduction of an integer into a 16-bit word (two's-complement wraparound
/// for the nonnegative arguments used here).
pub open spec fn wrap16(x: int) -> u16 {
    (x % 0x10000) as u16
}

/// Whether a word's sign bit is set, i.e. it is negative as a signed value.
pub open spec fn is_neg(x: u16) -> bool {
    x >= 0x8000
}

/// Signed 16-bit comparison: negative values sort below nonnegative ones,
/// and within one sign the unsigned order agrees with the signed order.
pub open spec fn signed_lt(a: u16, b: u16) -> bool {
    if is_neg(a) && !is_neg(b) {
        true
    } else if !is_neg(a) && is_neg(b) {
        false
    } else {
        a < b
    }
}

/// Logical left shift; shifting by 16 or more clears the word.
pub open spec fn shl16(x: u16, n: u16) -> u16 {
    if n >= 16 {
        0
    } else {
        x << n
    }
}

/// Logical right shift; shifting by 16 or more clears the word.
pub open spec fn shr16(x: u16, n: u16) -> u16 {
    if n >= 16 {
        0
    } else {
        x >> n
    }
}

/// Arithmetic right shift: the sign bit is replicated into the vacated
/// positions.
pub open spec fn sra16(x: u16, n: u16) -> u16 {
    if n >= 16 {
        if is_neg(x) {
            0xFFFF
        } else {
            0
        }
    } else if is_neg(x) {
        (x >> n) | !(0xFFFFu16 >> n)
    } else {
        x >> n
    }
}

/// The flags an addition defines: Zero and Negative from the result, Carry
/// from the unsigned overflow out of the high bit, Overflow from signed
/// overflow (operands of equal sign, result of the other sign).
pub open spec fn flags_add(a: u16, b: u16) -> Flags {
    let r = wrap16(a + b);
    Flags {
        z: r == 0,
        c: a + b > 0xFFFF,
        n: is_neg(r),
        v: (is_neg(a) == is_neg(b)) && (is_neg(r) != is_neg(a)),
    }
}

/// The flags a subtraction defines; Carry is the carry out of the
/// two's-complement addition `a + !b + 1`, i.e. set iff no borrow occurs.
pub open spec fn flags_sub(a: u16, b: u16) -> Flags {
    let r = wrap16(a + 0x10000 - b);
    Flags {
        z: r == 0,
        c: a >= b,
        n: is_neg(r),
        v: (is_neg(a) != is_neg(b)) && (is_neg(r) != is_neg(a)),
    }
}

/// The flags a bitwise operation defines: Zero and Negative from the
/// result; Carry and Overflow are left as they were.
pub open spec fn flags_logic(r: u16, f: Flags) -> Flags {
    Flags { z: r == 0, c: f.c, n: is_neg(r), v: f.v }
}

// ---------------------------------------------------------------------------
// The machine state and its transition function
// ---------------------------------------------------------------------------

/// The architectural state of the simulated machine: program counter,
/// register contents, memory image, condition codes, and whether the
/// control unit has reached its terminal (halted) state.
#[verifier::ext_equal]
pub ghost struct State {
    pub pc: u16,
    pub regs: Seq<u16>,
    pub mem: Seq<u8>,
    pub flags: Flags,
    pub halted: bool,
}

/// Well-formedness of a machine state: eight registers with `r0` zero, and
/// a memory image spanning the address space.
pub open spec fn wf_state(s: State) -> bool {
    &&& s.regs.len() == 8
    &&& s.regs[0] == 0u16
    &&& s.mem.len() == MEM_SIZE
}

/// The effect of one decoded instruction on the machine state.
///
/// Instructions that take an immediate fetch it from the word after the
/// instruction and retire 4 bytes of program; all others retire 2.  A taken
/// branch sets the program counter to the fetched target instead.  STOP
/// halts and leaves the program counter on the STOP instruction.  An opcode
/// that names no defined operation is a no-op.
pub open spec fn exec_spec(s: State, i: Instr) -> State
    recommends
        wf_state(s),
        i.rd < 8,
        i.rs1 < 8,
        i.rs2 < 8,
{
    let a = s.regs[i.rs1 as int];
    let b = s.regs[i.rs2 as int];
    let imm = word_at(s.mem, wrap16(s.pc + 2));
    let pc2 = wrap16(s.pc + 2);
    let pc4 = wrap16(s.pc + 4);
    if i.opcode == OP_ADD {
        State { pc: pc2, regs: rf_write(s.regs, wrap16(a + b), i.rd), flags: flags_add(a, b), ..s }
    } else if i.opcode == OP_SUB {
        State {
            pc: pc2,
            regs: rf_write(s.regs, wrap16(a + 0x10000 - b), i.rd),
            flags: flags_sub(a, b),
            ..s
        }
    } else if i.opcode == OP_AND {
        State { pc: pc2, regs: rf_write(s.regs, a & b, i.rd), flags: flags_logic(a & b, s.flags), ..s }
    } else if i.opcode == OP_OR {
        State { pc: pc2, regs: rf_write(s.regs, a | b, i.rd), flags: flags_logic(a | b, s.flags), ..s }
    } else if i.opcode == OP_XOR {
        State { pc: pc2, regs: rf_write(s.regs, a ^ b, i.rd), flags: flags_logic(a ^ b, s.flags), ..s }
    } else if i.opcode == OP_NOT {
        State { pc: pc2, regs: rf_write(s.regs, !a, i.rd), ..s }
    } else if i.opcode == OP_MV {
        State { pc: pc2, regs: rf_write(s.regs, a, i.rd), ..s }
    } else if i.opcode == OP_ADDI {
        State { pc: pc4, regs: rf_write(s.regs, wrap16(a + imm), i.rd), ..s }
    } else if i.opcode == OP_LW {
        State { pc: pc4, regs: rf_write(s.regs, word_at(s.mem, wrap16(a + imm)), i.rd), ..s }
    } else if i.opcode == OP_SW {
        State { pc: pc4, mem: word_write(s.mem, wrap16(a + imm), b), ..s }
    } else if i.opcode == OP_SLT {
        State {
            pc: pc2,
            regs: rf_write(s.regs, if signed_lt(a, b) { 1u16 } else { 0u16 }, i.rd),
            ..s
        }
    } else if i.opcode == OP_SLTI {
        State {
            pc: pc4,
            regs: rf_write(s.regs, if signed_lt(a, imm) { 1u16 } else { 0u16 }, i.rd),
            ..s
        }
    } else if i.opcode == OP_SLL {
        State { pc: pc2, regs: rf_write(s.regs, shl16(a, b), i.rd), ..s }
    } else if i.opcode == OP_SLLI {
        State { pc: pc2, regs: rf_write(s.regs, shl16(a, i.rs2 as u16), i.rd), ..s }
    } else if i.opcode == OP_SRL {
        State { pc: pc2, regs: rf_write(s.regs, shr16(a, b), i.rd), ..s }
    } else if i.opcode == OP_SRLI {
        State { pc: pc2, regs: rf_write(s.regs, shr16(a, i.rs2 as u16), i.rd), ..s }
    } else if i.opcode == OP_SRA {
        State { pc: pc2, regs: rf_write(s.regs, sra16(a, b), i.rd), ..s }
    } else if i.opcode == OP_SRAI {
        State { pc: pc2, regs: rf_write(s.regs, sra16(a, i.rs2 as u16), i.rd), ..s }
    } else if i.opcode == OP_BRA {
        State { pc: imm, ..s }
    } else if i.opcode == OP_BRZ {
        State { pc: if s.flags.z { imm } else { pc4 }, ..s }
    } else if i.opcode == OP_BRNZ {
        State { pc: if !s.flags.z { imm } else { pc4 }, ..s }
    } else if i.opcode == OP_BRN {
        State { pc: if s.flags.n { imm } else { pc4 }, ..s }
    } else if i.opcode == OP_BRC {
        State { pc: if s.flags.c { imm } else { pc4 }, ..s }
    } else if i.opcode == OP_BRV {
        State { pc: if s.flags.v { imm } else { pc4 }, ..s }
    } else if i.opcode == OP_STOP {
        State { halted: true, ..s }
    } else {
        State { pc: pc2, ..s }
    }
}

/// One fetch-decode-execute cycle: a halted machine stays put; otherwise
/// the word under the program counter is decoded and executed.
pub open spec fn step_spec(s: State) -> State
    recommends
        wf_state(s),
{
    if s.halted {
        s
    } else {
        exec_spec(s, spec_decode(word_at(s.mem, s.pc)))
    }
}

/// The control unit's two-state machine: a halted machine is a fixed point
/// of the cycle, and a running machine halts in one cycle exactly when the
/// word under the program counter decodes to STOP.
pub proof fn lemma_halted_only_by_stop(s: State)
    requires
        wf_state(s),
    ensures
        s.halted ==> step_spec(s) == s,
        !s.halted ==> (step_spec(s).halted <==> spec_opcode(word_at(s.mem, s.pc)) == OP_STOP),
{
}

/// Up to `n` cycles, stopping early once the machine halts.
pub open spec fn run_spec(s: State, n: nat) -> State
    recommends
        wf_state(s),
    decreases n,
{
    if s.halted || n == 0 {
        s
    } else {
        run_spec(step_spec(s), (n - 1) as nat)
    }
}

// ---------------------------------------------------------------------------
// Executable arithmetic helpers
// ---------------------------------------------------------------------------

/// 16-bit addition with wraparound.
fn wrap_add(a: u16, b: u16) -> (r: u16)
    ensures
        r == wrap16(a as int + b as int),
{
    (((a as u32) + (b as u32)) % 0x10000) as u16
}

/// 16-bit subtraction with wraparound (two's-complement difference).
fn wrap_sub(a: u16, b: u16) -> (r: u16)
    ensures
        r == wrap16(a as int + 0x10000 - b as int),
{
    (((a as u32) + 0x10000 - (b as u32)) % 0x10000) as u16
}

/// Signed 16-bit comparison.
fn signed_lt_exec(a: u16, b: u16) -> (r: bool)
    ensures
        r == signed_lt(a, b),
{
    if a >= 0x8000 && b < 0x8000 {
        true
    } else if a < 0x8000 && b >= 0x8000 {
        false
    } else {
        a < b
    }
}

/// Logical left shift by an arbitrary amount.
fn shl_exec(x: u16, n: u16) -> (r: u16)
    ensures
        r == shl16(x, n),
{
    if n >= 16 {
        0
    } else {
        x << n
    }
}

/// Logical right shift by an arbitrary amount.
fn shr_exec(x: u16, n: u16) -> (r: u16)
    ensures
        r == shr16(x, n),
{
    if n >= 16 {
        0
    } else {
        x >> n
    }
}

/// Arithmetic (sign-extending) right shift by an arbitrary amount.
fn sra_exec(x: u16, n: u16) -> (r: u16)
    ensures
        r == sra16(x, n),
{
    if n >= 16 {
        if x >= 0x8000 {
            0xFFFF
        } else {
            0
        }
    } else if x >= 0x8000 {
        (x >> n) | !(0xFFFFu16 >> n)
    } else {
        x >> n
    }
}

// ---------------------------------------------------------------------------
// The control unit
// ---------------------------------------------------------------------------

/// Components of the RISC240 processor: the control unit owns the program
/// counter, condition codes, register file, instruction register and
/// memory, and drives the fetch-decode-execute cycle.
pub struct CPU {
    /// Program counter.
    pub pc: Reg,
    /// Condition codes.
    pub cc: CC,
    /// Register file.
    pub rf: RegFile,
    /// Instruction register.
    pub ir: Reg,
    /// Memory.
    pub mem: Mem,
    /// Whether the control unit has reached its terminal state.
    pub halted: bool,
}

impl View for CPU {
    type V = State;

    open spec fn view(&self) -> State {
        State {
            pc: self.pc@,
            regs: self.rf@,
            mem: self.mem@,
            flags: self.cc@,
            halted: self.halted,
        }
    }
}

impl CPU {
    /// Well-formedness of the processor's architectural state.
    pub open spec fn wf(&self) -> bool {
        wf_state(self@)
    }

    /// Creates a processor with zeroed registers, memory and flags, ready
    /// for a loader to deposit a program image.
    pub fn new() -> (r: CPU)
        ensures
            r.wf(),
            r@.pc == 0u16,
            !r@.halted,
            forall|i: int| 0 <= i < 8 ==> r@.regs[i] == 0u16,
            forall|i: int| 0 <= i < MEM_SIZE ==> r@.mem[i] == 0u8,
            r@.flags == (Flags { z: false, c: false, n: false, v: false }),
            r.ir@ == 0u16,
    {
        CPU {
            pc: Reg::new(),
            cc: CC::new(),
            rf: RegFile::new(),
            ir: Reg::new(),
            mem: Mem::new(),
            halted: false,
        }
    }

    /// Re-initializes the control unit for a fresh run: program counter to
    /// 0, flags cleared, Running state.  Registers and memory (holding the
    /// loaded program image) are left as they are.
    pub fn init(&mut self)
        ensures
            final(self).wf() == old(self).wf(),
            final(self)@.pc == 0u16,
            !final(self)@.halted,
            final(self)@.flags == (Flags { z: false, c: false, n: false, v: false }),
            final(self)@.regs == old(self)@.regs,
            final(self)@.mem == old(self)@.mem,
            final(self).ir == old(self).ir,
    {
        self.pc.clear();
        self.cc.reset(ConditionCode::ALL);
        self.halted = false;
    }

    /// Loads the instruction register with the memory word under the
    /// program counter.
    fn fetch(&mut self)
        requires
            old(self).wf(),
        ensures
            final(self).wf(),
            final(self).ir@ == word_at(old(self)@.mem, old(self)@.pc),
            final(self)@ == old(self)@,
    {
        let w = self.mem.read_word(self.pc.read());
        self.ir.write(w);
    }

    /// Decodes the instruction register.
    fn decode(&self) -> (i: Instr)
        ensures
            i == spec_decode(self.ir@),
            i.rd < 8,
            i.rs1 < 8,
            i.rs2 < 8,
    {
        Instr::new(self.ir.read())
    }

    /// Reads the immediate operand: the memory word after the instruction.
    fn read_imm(&self) -> (r: u16)
        requires
            self.wf(),
        ensures
            r == word_at(self@.mem, wrap16(self@.pc + 2)),
    {
        let pc2 = wrap_add(self.pc.read(), 2);
        self.mem.read_word(pc2)
    }

    /// Applies one decoded instruction to the machine state.
    fn execute(&mut self, instr: Instr)
        requires
            old(self).wf(),
            instr.rd < 8,
            instr.rs1 < 8,
            instr.rs2 < 8,
        ensures
            final(self).wf(),
            final(self)@ == exec_spec(old(self)@, instr),
    {
        let ghost s0 = self@;
        let op = instr.opcode;
        if op == OP_ADD {
            let (a, b) = self.rf.read(instr.rs1, instr.rs2);
            let sum: u32 = (a as u32) + (b as u32);
            let r: u16 = (sum % 0x10000) as u16;
            self.rf.write(r, instr.rd);
            self.cc.assign(ConditionCode::Z, r == 0);
            self.cc.assign(ConditionCode::C, sum > 0xFFFF);
            self.cc.assign(ConditionCode::N, r >= 0x8000);
            self.cc.assign(
                ConditionCode::V,
                ((a >= 0x8000) == (b >= 0x8000)) && ((r >= 0x8000) != (a >= 0x8000)),
            );
            let pc2 = wrap_add(self.pc.read(), 2);
            self.pc.write(pc2);
            proof {
                assert(self@ =~= exec_spec(s0, instr));
            }
        } else if op == OP_SUB {
            let (a, b) = self.rf.read(instr.rs1, instr.rs2);
            let r = wrap_sub(a, b);
            self.rf.write(r, instr.rd);
            self.cc.assign(ConditionCode::Z, r == 0);
            self.cc.assign(ConditionCode::C, a >= b);
            self.cc.assign(ConditionCode::N, r >= 0x8000);
            self.cc.assign(
                ConditionCode::V,
                ((a >= 0x8000) != (b >= 0x8000)) && ((r >= 0x8000) != (a >= 0x8000)),
            );
            let pc2 = wrap_add(self.pc.read(), 2);
            self.pc.write(pc2);
            proof {
                assert(self@ =~= exec_spec(s0, instr));
            }
        } else if op == OP_AND || op == OP_OR || op == OP_XOR {
            let (a, b) = self.rf.read(instr.rs1, instr.rs2);
            let r = if op == OP_AND {
                a & b
            } else if op == OP_OR {
                a | b
            } else {
                a ^ b
            };
            self.rf.write(r, instr.rd);
            self.cc.assign(ConditionCode::Z, r == 0);
            self.cc.assign(ConditionCode::N, r >= 0x8000);
            let pc2 = wrap_add(self.pc.read(), 2);
            self.pc.write(pc2);
            proof {
                assert(self@ =~= exec_spec(s0, instr));
            }
        } else if op == OP_NOT {
            let (a, _b) = self.rf.read(instr.rs1, instr.rs2);
            self.rf.write(!a, instr.rd);
            let pc2 = wrap_add(self.pc.read(), 2);
            self.pc.write(pc2);
            proof {
                assert(self@ =~= exec_spec(s0, instr));
            }
        } else if op == OP_MV {
            let (a, _b) = self.rf.read(instr.rs1, instr.rs2);
            self.rf.write(a, instr.rd);
            let pc2 = wrap_add(self.pc.read(), 2);
            self.pc.write(pc2);
            proof {
                assert(self@ =~= exec_spec(s0, instr));
            }
        } else if op == OP_ADDI {
            let (a, _b) = self.rf.read(instr.rs1, instr.rs2);
            let imm = self.read_imm();
            self.rf.write(wrap_add(a, imm), instr.rd);
            let pc4 = wrap_add(self.pc.read(), 4);
            self.pc.write(pc4);
            proof {
                assert(self@ =~= exec_spec(s0, instr));
            }
        } else if op == OP_LW {
            let (a, _b) = self.rf.read(instr.rs1, instr.rs2);
            let imm = self.read_imm();
            let w = self.mem.read_word(wrap_add(a, imm));
            self.rf.write(w, instr.rd);
            let pc4 = wrap_add(self.pc.read(), 4);
            self.pc.write(pc4);
            proof {
                assert(self@ =~= exec_spec(s0, instr));
            }
        } else if op == OP_SW {
            let (a, b) = self.rf.read(instr.rs1, instr.rs2);
            let imm = self.read_imm();
            self.mem.write_word(wrap_add(a, imm), b);
            let pc4 = wrap_add(self.pc.read(), 4);
            self.pc.write(pc4);
            proof {
                assert(self@ =~= exec_spec(s0, instr));
            }
        } else if op == OP_SLT {
            let (a, b) = self.rf.read(instr.rs1, instr.rs2);
            let r: u16 = if signed_lt_exec(a, b) {
                1
            } else {
                0
            };
            self.rf.write(r, instr.rd);
            let pc2 = wrap_add(self.pc.read(), 2);
            self.pc.write(pc2);
            proof {
                assert(self@ =~= exec_spec(s0, instr));
            }
        } else if op == OP_SLTI {
            let (a, _b) = self.rf.read(instr.rs1, instr.rs2);
            let imm = self.read_imm();
            let r: u16 = if signed_lt_exec(a, imm) {
                1
            } else {
                0
            };
            self.rf.write(r, instr.rd);
            let pc4 = wrap_add(self.pc.read(), 4);
            self.pc.write(pc4);
            proof {
                assert(self@ =~= exec_spec(s0, instr));
            }
        } else if op == OP_SLL || op == OP_SRL || op == OP_SRA {
            let (a, b) = self.rf.read(instr.rs1, instr.rs2);
            let r = if op == OP_SLL {
                shl_exec(a, b)
            } else if op == OP_SRL {
                shr_exec(a, b)
            } else {
                sra_exec(a, b)
            };
            self.rf.write(r, instr.rd);
            let pc2 = wrap_add(self.pc.read(), 2);
            self.pc.write(pc2);
            proof {
                assert(self@ =~= exec_spec(s0, instr));
            }
        } else if op == OP_SLLI || op == OP_SRLI || op == OP_SRAI {
            let (a, _b) = self.rf.read(instr.rs1, instr.rs2);
            let shamt = instr.rs2 as u16;
            let r = if op == OP_SLLI {
                shl_exec(a, shamt)
            } else if op == OP_SRLI {
                shr_exec(a, shamt)
            } else {
                sra_exec(a, shamt)
            };
            self.rf.write(r, instr.rd);
            let pc2 = wrap_add(self.pc.read(), 2);
            self.pc.write(pc2);
            proof {
                assert(self@ =~= exec_spec(s0, instr));
            }
        } else if op == OP_BRA {
            let imm = self.read_imm();
            self.pc.write(imm);
            proof {
                assert(self@ =~= exec_spec(s0, instr));
            }
        } else if op == OP_BRZ || op == OP_BRNZ || op == OP_BRN || op == OP_BRC || op == OP_BRV {
            let imm = self.read_imm();
            let taken = if op == OP_BRZ {
                self.cc.get(ConditionCode::Z)
            } else if op == OP_BRNZ {
                !self.cc.get(ConditionCode::Z)
            } else if op == OP_BRN {
                self.cc.get(ConditionCode::N)
            } else if op == OP_BRC {
                self.cc.get(ConditionCode::C)
            } else {
                self.cc.get(ConditionCode::V)
            };
            if taken {
                self.pc.write(imm);
            } else {
                let pc4 = wrap_add(self.pc.read(), 4);
                self.pc.write(pc4);
            }
            proof {
                assert(self@ =~= exec_spec(s0, instr));
            }
        } else if op == OP_STOP {
            self.halted = true;
            proof {
                assert(self@ =~= exec_spec(s0, instr));
            }
        } else {
            let pc2 = wrap_add(self.pc.read(), 2);
            self.pc.write(pc2);
            proof {
                assert(self@ =~= exec_spec(s0, instr));
            }
        }
    }

    /// One fetch-decode-execute cycle; a halted machine stays halted.
    pub fn step(&mut self)
        requires
            old(self).wf(),
        ensures
            final(self).wf(),
            final(self)@ == step_spec(old(self)@),
    {
        if !self.halted {
            self.fetch();
            let instr = self.decode();
            self.execute(instr);
        }
    }

    /// Resets the program counter and runs fetch-decode-execute cycles
    /// until STOP is reached, or until `max_steps` cycles have retired —
    /// the externally supplied stop condition that bounds a runaway
    /// program.
    pub fn run(&mut self, max_steps: usize)
        requires
            old(self).wf(),
        ensures
            final(self).wf(),
            final(self)@ == run_spec((State { pc: 0u16, ..old(self)@ }), max_steps as nat),
    {
        self.pc.clear();
        let ghost start = self@;
        proof {
            assert(start =~= (State { pc: 0u16, ..old(self)@ }));
        }
        let mut i: usize = 0;
        while i < max_steps && !self.halted
            invariant
                self.wf(),
                i <= max_steps,
                run_spec(start, max_steps as nat) == run_spec(self@, (max_steps - i) as nat),
            decreases max_steps - i,
        {
            self.step();
            i = i + 1;
        }
    }
}

} // verus!

