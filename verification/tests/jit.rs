use gameroy::jit::{
    block_can_start, ends_trace, interpreter_stops, op_cycles, trace_goes_on, NoHashHasher,
    TraceTotals,
};

#[test]
fn no_hash_hasher_packs_words() {
    let builder = NoHashHasher(123);
    let mut h = builder.build_hasher();
    assert_eq!(h.finish(), 0);
    h.write_u16(0x0001);
    h.write_u16(0x4000);
    assert_eq!(h.finish(), 0x0001_4000);
}

#[test]
fn blocks_start_only_inside_rom() {
    // NOP in bank 0
    assert!(block_can_start(0x0100, 0x00));
    // outside ROM
    assert!(!block_can_start(0x8000, 0x00));
    // STOP and HALT
    assert!(!block_can_start(0x0100, 0x10));
    assert!(!block_can_start(0x0100, 0x76));
    // JP nn (3 bytes) crossing into the switchable bank
    assert!(!block_can_start(0x3FFE, 0xC3));
    assert!(!block_can_start(0x3FFD, 0xC3));
    assert!(block_can_start(0x3FFC, 0xC3));
    // reaching the end of the ROM
    assert!(!block_can_start(0x7FFD, 0xC3));
    assert!(block_can_start(0x7FFC, 0xC3));
}

#[test]
fn interpreter_stops_after_jumps_at_vectors_or_when_halted() {
    assert!(interpreter_stops(0xC3, 0x1234, true));
    assert!(interpreter_stops(0x00, 0x40, true));
    assert!(interpreter_stops(0x00, 0x1234, false));
    assert!(!interpreter_stops(0x00, 0x1234, true));
}

#[test]
fn op_cycles_reads_the_clock_tables() {
    assert_eq!(op_cycles([0x00, 0, 0]), 4);
    assert_eq!(op_cycles([0xCD, 0, 0]), 24);
    assert_eq!(op_cycles([0xCB, 0x06, 0]), 16);
    assert_eq!(op_cycles([0xCB, 0x46, 0]), 12);
}

#[test]
fn traces_end_at_unconditional_control_flow() {
    assert!(ends_trace(0xC3));
    assert!(ends_trace(0xC9));
    assert!(!ends_trace(0xC2));
    assert!(!ends_trace(0x00));
}

#[test]
fn traces_go_on_within_the_block_banks_and_the_rom() {
    // bank 0 of the block
    assert!(trace_goes_on(0x0100, 0, Some(3), 0, 3, 0x00, 1));
    // switchable bank of the block
    assert!(trace_goes_on(0x5000, 0, Some(3), 0, 3, 0x00, 1));
    // another switchable bank
    assert!(!trace_goes_on(0x5000, 0, Some(4), 0, 3, 0x00, 1));
    assert!(!trace_goes_on(0x5000, 0, None, 0, 3, 0x00, 1));
    // past the end of the ROM
    assert!(!trace_goes_on(0x7FFE, 0, Some(3), 0, 3, 0xC3, 3));
    assert!(trace_goes_on(0x7FFD, 0, Some(3), 0, 3, 0xC3, 3));
    // STOP and HALT
    assert!(!trace_goes_on(0x0100, 0, Some(3), 0, 3, 0x10, 2));
    assert!(!trace_goes_on(0x0100, 0, Some(3), 0, 3, 0x76, 1));
}

#[test]
fn trace_totals_mark_checks_after_memory_writes_and_at_the_end() {
    let mut t = TraceTotals::new();
    t.add_instr([0x3E, 0x12, 0x00], 2); // LD A,$12
    assert_eq!(t.interrupt_checks, vec![]);
    t.add_instr([0xEA, 0x00, 0xC0], 3); // LD ($C000),A
    assert_eq!(t.interrupt_checks, vec![(1, 24 + 12)]);
    t.add_instr([0xC3, 0x50, 0x01], 3); // JP $0150
    t.mark_check();
    assert_eq!(t.instr_count, 3);
    assert_eq!(t.length, 8);
    assert_eq!(t.clock, 40);
    assert_eq!(t.interrupt_checks, vec![(1, 36), (2, 52)]);
}

#[test]
fn trace_totals_count_cb_instructions_by_their_own_table() {
    let mut t = TraceTotals::new();
    t.add_instr([0xCB, 0x37, 0x00], 2); // SWAP A
    assert_eq!(t.clock, op_cycles([0xCB, 0x37, 0x00]));
    assert_eq!(t.clock, 8);
}
