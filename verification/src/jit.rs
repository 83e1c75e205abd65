//! The decisions of the block compiler that do not depend on the compiled code.
use crate::consts::{CB_CLOCK, CLOCK, LEN, WRITE_RAM};
use vstd::prelude::*;

verus! {

/// A hasher for keys made of 16-bit words: its state is the words written so far,
/// the last one in the low 16 bits.
pub struct NoHashHasher(pub u64);

impl NoHashHasher {
    /// The hash: the state itself.
    pub fn finish(&self) -> (h: u64)
        ensures
            h == self.0,
    {
        self.0
    }

    /// Shift the state left by 16 bits and put `i` in the low 16 bits.
    pub fn write_u16(&mut self, i: u16)
        ensures
            final(self).0 == ((old(self).0 << 16u64) | i as u64),
    {
        self.0 = (self.0 << 16) | i as u64;
    }

    /// A new hasher, with state 0.
    pub fn build_hasher(&self) -> (h: NoHashHasher)
        ensures
            h.0 == 0,
    {
        NoHashHasher(0)
    }
}

/// Two 16-bit words written one after the other to a fresh hasher hash to
/// `a * 65536 + b`: distinct pairs of words get distinct hashes.
pub proof fn lemma_two_words_hash(a: u16, b: u16)
    ensures
        (((0u64 << 16u64) | a as u64) << 16u64) | b as u64 == a as u64 * 65536 + b as u64,
{
    assert((((0u64 << 16u64) | a as u64) << 16u64) | b as u64 == a as u64 * 65536 + b as u64)
        by (bit_vector);
}

/// Whether a compiled block may start at `pc`, whose opcode is `op`: the code is in
/// ROM, is neither STOP nor HALT, and its first instruction neither crosses from bank
/// 0 into the switchable bank nor reaches past the ROM.
pub open spec fn block_can_start_spec(pc: u16, op: u8) -> bool {
    let end = pc as int + LEN[op as int] as int;
    &&& pc < 0x8000
    &&& op != 0x10
    &&& op != 0x76
    &&& !(pc < 0x4000 && end >= 0x4000)
    &&& end < 0x8000
}

/// The test that the block compiler makes before it looks up or compiles the block
/// at `pc`: false means the interpreter runs instead.
pub fn block_can_start(pc: u16, op: u8) -> (r: bool)
    ensures
        r == block_can_start_spec(pc, op),
{
    if pc >= 0x8000 {
        // don't compile code outside ROM
        return false;
    }
    // if STOP or HALT, fallback to interpreter
    if op == 0x10 || op == 0x76 {
        return false;
    }
    let len = LEN[op as usize];
    if pc < 0x4000 && pc + len as u16 >= 0x4000 {
        return false;
    }
    if pc + len as u16 >= 0x8000 {
        return false;
    }
    true
}

/// The opcodes after which the interpreter hands control back: jumps, calls,
/// returns and restarts.
pub open spec fn is_jump_op(op: u8) -> bool {
    op == 0xc2 || op == 0xc3 || op == 0xca || op == 0xd2 || op == 0xda || op == 0xe9 || op
        == 0x18 || op == 0x20 || op == 0x28 || op == 0x30 || op == 0x38 || op == 0xc4 || op
        == 0xcc || op == 0xcd || op == 0xd4 || op == 0xdc || op == 0xc0 || op == 0xc8 || op
        == 0xc9 || op == 0xd0 || op == 0xd8 || op == 0xd9 || op == 0xc7 || op == 0xcf || op
        == 0xd7 || op == 0xdf || op == 0xe7 || op == 0xef || op == 0xf7 || op == 0xff
}

/// The interrupt vectors.
pub open spec fn is_interrupt_vector(pc: u16) -> bool {
    pc == 0x40 || pc == 0x48 || pc == 0x50 || pc == 0x58 || pc == 0x60
}

/// Whether the interpreter stops after running opcode `op`, with the program counter
/// now at `pc`: after a jump, on reaching an interrupt vector, or when the CPU no
/// longer runs.
pub fn interpreter_stops(op: u8, pc: u16, running: bool) -> (r: bool)
    ensures
        r == (is_jump_op(op) || is_interrupt_vector(pc) || !running),
{
    let is_jump = op == 0xc2 || op == 0xc3 || op == 0xca || op == 0xd2 || op == 0xda || op
        == 0xe9 || op == 0x18 || op == 0x20 || op == 0x28 || op == 0x30 || op == 0x38 || op
        == 0xc4 || op == 0xcc || op == 0xcd || op == 0xd4 || op == 0xdc || op == 0xc0 || op
        == 0xc8 || op == 0xc9 || op == 0xd0 || op == 0xd8 || op == 0xd9 || op == 0xc7 || op
        == 0xcf || op == 0xd7 || op == 0xdf || op == 0xe7 || op == 0xef || op == 0xf7 || op
        == 0xff;
    let is_interrupt = pc == 0x40 || pc == 0x48 || pc == 0x50 || pc == 0x58 || pc == 0x60;
    is_jump || is_interrupt || !running
}

/// The minimum number of clock cycles of the instruction `op`.
pub open spec fn op_cycles_spec(op: [u8; 3]) -> u32 {
    if op[0] == 0xcb {
        CB_CLOCK[op[1] as int] as u32
    } else {
        CLOCK[op[0] as int] as u32
    }
}

/// The minimum number of clock cycles of the instruction `op` (its opcode and up to
/// two operand bytes).
pub fn op_cycles(op: [u8; 3]) -> (c: u32)
    ensures
        c == op_cycles_spec(op),
{
    if op[0] == 0xcb {
        CB_CLOCK[op[1] as usize] as u32
    } else {
        CLOCK[op[0] as usize] as u32
    }
}

/// Whether a traced block ends with the instruction `op`: JR (0x18), JP (0xC3),
/// JP HL (0xE9), CALL (0xCD), RET (0xC9), and the restarts RST 00h, 08h, 10h, 20h,
/// 28h and 38h (0xC7, 0xCF, 0xD7, 0xE7, 0xEF, 0xFF). RST 18h and RST 30h do not end
/// a trace.
pub open spec fn ends_trace_spec(op: u8) -> bool {
    op == 0x18 || op == 0xc3 || op == 0xc7 || op == 0xc9 || op == 0xcd || op == 0xcf || op
        == 0xd7 || op == 0xe7 || op == 0xe9 || op == 0xef || op == 0xff
}

/// Whether a traced block ends with the instruction `op`.
pub fn ends_trace(op: u8) -> (r: bool)
    ensures
        r == ends_trace_spec(op),
{
    op == 0x18 || op == 0xc3 || op == 0xc7 || op == 0xc9 || op == 0xcd || op == 0xcf || op == 0xd7
        || op == 0xd7 || op == 0xe7 || op == 0xe9 || op == 0xef || op == 0xff || op == 0xff
}

/// The conditional jumps, calls and returns: JR cc, JP cc, CALL cc and RET cc
/// (bit patterns 001cc000, 110cc010, 110cc100 and 110cc000).
pub open spec fn is_conditional_transfer(op: u8) -> bool {
    op & 0xE7 == 0x20 || op & 0xE7 == 0xC2 || op & 0xE7 == 0xC4 || op & 0xE7 == 0xC0
}

/// The interpreter hands control back after every control transfer: JR, JP, CALL
/// and RET, conditional or not, JP HL, RETI and the eight restarts (11xxx111); and
/// on reaching one of the five interrupt vectors, 0x40 to 0x60 in steps of 8.
pub proof fn lemma_interpreter_stops_at_transfers(op: u8, pc: u16)
    ensures
        is_jump_op(op) <==> (op == 0x18 || op == 0xC3 || op == 0xE9 || op == 0xCD || op == 0xC9
            || op == 0xD9 || is_conditional_transfer(op) || op & 0xC7 == 0xC7),
        is_interrupt_vector(pc) <==> (0x40 <= pc <= 0x60 && pc & 7 == 0),
{
    assert(is_jump_op(op) <==> (op == 0x18 || op == 0xC3 || op == 0xE9 || op == 0xCD || op
        == 0xC9 || op == 0xD9 || is_conditional_transfer(op) || op & 0xC7 == 0xC7))
        by (bit_vector);
    assert(is_interrupt_vector(pc) <==> (0x40 <= pc <= 0x60 && pc & 7 == 0)) by (bit_vector);
}

/// A traced block ends exactly at the unconditional control transfers: JR, JP, JP HL,
/// CALL, RET and the restarts (bit pattern 11xxx111) but RST 18h and RST 30h. Each
/// is a jump at which the interpreter stops too, and none is conditional.
pub proof fn lemma_trace_ends_at_unconditional_transfers(op: u8)
    ensures
        ends_trace_spec(op) <==> (op == 0x18 || op == 0xC3 || op == 0xE9 || op == 0xCD || op
            == 0xC9 || (op & 0xC7 == 0xC7 && op != 0xDF && op != 0xF7)),
        ends_trace_spec(op) ==> is_jump_op(op) && !is_conditional_transfer(op),
{
    assert(ends_trace_spec(op) <==> (op == 0x18 || op == 0xC3 || op == 0xE9 || op == 0xCD || op
        == 0xC9 || (op & 0xC7 == 0xC7 && op != 0xDF && op != 0xF7))) by (bit_vector);
    assert(ends_trace_spec(op) ==> is_jump_op(op) && !is_conditional_transfer(op))
        by (bit_vector);
}

/// Whether the trace of a block goes on to the next instruction, at `pc` in bank
/// `bank0` (for addresses below 0x4000) or `bank` (above), with opcode `op` of
/// `len` bytes, while the block runs with banks (`cur_bank0`, `cur_bank`): the
/// instruction is in bank 0 of the block or in its switchable bank, ends within
/// the ROM, and is neither STOP nor HALT.
pub open spec fn trace_goes_on_spec(
    pc: u16,
    bank0: u16,
    bank: Option<u16>,
    cur_bank0: u16,
    cur_bank: u16,
    op: u8,
    len: u8,
) -> bool {
    &&& (pc < 0x4000 && bank0 == cur_bank0 || bank == Some(cur_bank))
    &&& pc as int + len as int <= 0x8000
    &&& op != 0x10
    &&& op != 0x76
}

/// Whether the trace of a block goes on to the next instruction.
pub fn trace_goes_on(
    pc: u16,
    bank0: u16,
    bank: Option<u16>,
    cur_bank0: u16,
    cur_bank: u16,
    op: u8,
    len: u8,
) -> (r: bool)
    ensures
        r == trace_goes_on_spec(pc, bank0, bank, cur_bank0, cur_bank, op, len),
{
    let same_bank = match bank {
        Some(b) => b == cur_bank,
        None => false,
    };
    if !(pc < 0x4000 && bank0 == cur_bank0 || same_bank) {
        return false;
    }
    if pc as u32 + len as u32 > 0x8000 {
        return false;
    }
    if op == 0x10 || op == 0x76 {
        return false;
    }
    true
}

/// The running totals of a block trace: how many instructions it holds (modulo
/// 2^16), their length in bytes, their minimum clock cycles, and the points where
/// the compiled block checks for an interrupt, each the index of an instruction
/// and the clock cycles by then, with twelve more in case the instruction
/// branches.
pub struct TraceTotals {
    pub instr_count: u16,
    pub length: u16,
    pub clock: u32,
    pub interrupt_checks: Vec<(u16, u32)>,
}

/// The interrupt check after the last instruction traced so far.
pub open spec fn check_point(instr_count: u16, clock: u32) -> (u16, u32) {
    (instr_count.wrapping_sub(1), clock.wrapping_add(12))
}

impl TraceTotals {
    /// The totals of an empty trace.
    pub fn new() -> (t: TraceTotals)
        ensures
            t.instr_count == 0,
            t.length == 0,
            t.clock == 0,
            t.interrupt_checks@ == Seq::<(u16, u32)>::empty(),
    {
        TraceTotals { instr_count: 0, length: 0, clock: 0, interrupt_checks: Vec::new() }
    }

    /// Counts the instruction `op` of `len` bytes into the trace; after an
    /// instruction that writes to memory, the block checks for an interrupt.
    pub fn add_instr(&mut self, op: [u8; 3], len: u8)
        ensures
            final(self).instr_count == old(self).instr_count.wrapping_add(1),
            final(self).length == old(self).length.wrapping_add(len as u16),
            final(self).clock == old(self).clock.wrapping_add(op_cycles_spec(op)),
            final(self).interrupt_checks@ == if WRITE_RAM[op[0] as int] {
                old(self).interrupt_checks@.push(
                    check_point(final(self).instr_count, final(self).clock),
                )
            } else {
                old(self).interrupt_checks@
            },
    {
        self.instr_count = self.instr_count.wrapping_add(1);
        self.length = self.length.wrapping_add(len as u16);
        self.clock = self.clock.wrapping_add(op_cycles(op));
        if WRITE_RAM[op[0] as usize] {
            self.mark_check();
        }
    }

    /// Adds the interrupt check after the last instruction traced so far.
    pub fn mark_check(&mut self)
        ensures
            final(self).instr_count == old(self).instr_count,
            final(self).length == old(self).length,
            final(self).clock == old(self).clock,
            final(self).interrupt_checks@ == old(self).interrupt_checks@.push(
                check_point(old(self).instr_count, old(self).clock),
            ),
    {
        let check = (self.instr_count.wrapping_sub(1), self.clock.wrapping_add(12));
        self.interrupt_checks.push(check);
    }
}

} // verus!
