//! Tests for the two policy virtual machines: the register-script VM and
//! both dialects of the bit-manipulation language.

use reentry_game::attackers::neural::apply;
use reentry_game::attackers::neural::cast_bool;
use reentry_game::attackers::neural::cast_byte;

#[test]
fn cast_bool_shared_bit_rejects() {
    // Word 1 of a and b share bit 3.
    let a = vec![0u32, 0b1000, 0, 0];
    let b = vec![0u32, 0b1100, 0, 0];
    assert!(!cast_bool(&a, &b));
}

#[test]
fn cast_bool_disjoint_accepts() {
    let a = vec![0b0101u32, 0xffff_0000];
    let b = vec![0b1010u32, 0x0000_ffff];
    assert!(cast_bool(&a, &b));
}

#[test]
fn cast_bool_zero_mask_always_accepts() {
    // For any a, a zero mask shares no bit with it.
    let zero = vec![0u32; 4];
    for a in [
        vec![0u32, 0, 0, 0],
        vec![0xffff_ffffu32, 0xffff_ffff, 0xffff_ffff, 0xffff_ffff],
        vec![0xdeadu32, 0xbeef, 1, 0x8000_0000],
    ] {
        assert!(cast_bool(&a, &zero));
    }
}

#[test]
fn cast_byte_full_mask_extracts_bits_verbatim() {
    // With every mask bit set, the output is the input's bytes in order:
    // bits 0-7 of word 0 form byte 0, and so on.
    let a = vec![0x0403_0201u32, 0x0807_0605];
    let b = vec![0xffff_ffffu32, 0xffff_ffff];
    assert_eq!(cast_byte(8, &a, &b), vec![1, 2, 3, 4, 5, 6, 7, 8]);
    // Requesting more bytes than there are source bits leaves zeros.
    assert_eq!(cast_byte(10, &a, &b), vec![1, 2, 3, 4, 5, 6, 7, 8, 0, 0]);
    // Requesting fewer stops early.
    assert_eq!(cast_byte(3, &a, &b), vec![1, 2, 3]);
}

#[test]
fn cast_byte_mask_selects_surviving_bits() {
    // a = 0b1011_0100; mask keeps bits 4..7, whose values are 1,1,0,1,
    // packed least significant bit first: 1 + 2 + 8 = 11.
    let a = vec![0xb4u32];
    let b = vec![0xf0u32];
    assert_eq!(cast_byte(2, &a, &b), vec![11, 0]);
}

#[test]
fn cast_byte_zero_mask_yields_zeros() {
    let a = vec![0xffff_ffffu32];
    let b = vec![0u32];
    assert_eq!(cast_byte(4, &a, &b), vec![0, 0, 0, 0]);
}

#[test]
fn apply_seeds_then_stores() {
    // Script: x = 7, y = 42, then opcode 13 stores y at slot x & (len/2).
    // len = 4, mask = 2, 7 & 2 = 2.
    let mut state = vec![0u32; 4];
    apply(&mut state, &vec![], &vec![7, 42, 13]);
    assert_eq!(state, vec![0, 0, 42, 0]);
}

#[test]
fn apply_arithmetic_wraps() {
    // x = u32::MAX, y = 5; opcode 0 adds with wraparound: y = 4; store at
    // slot x & 2 = 2.
    let mut state = vec![0u32; 4];
    apply(&mut state, &vec![], &vec![u32::MAX, 5, 0, 13]);
    assert_eq!(state, vec![0, 0, 4, 0]);

    // Subtraction wraps below zero: y = 3 - 10 = -7 mod 2^32.
    let mut state = vec![0u32; 4];
    apply(&mut state, &vec![], &vec![10, 3, 1, 13]);
    assert_eq!(state, vec![0, 0, (3u32).wrapping_sub(10), 0]);
}

#[test]
fn apply_division_by_zero_is_no_op() {
    // x = 0, y = 9; opcodes 3 (div) and 4 (rem) leave y alone; store at
    // slot 0 & 2 = 0.
    let mut state = vec![0u32; 4];
    apply(&mut state, &vec![], &vec![0, 9, 3, 4, 13]);
    assert_eq!(state, vec![9, 0, 0, 0]);
}

#[test]
fn apply_unused_opcode_is_no_op() {
    // Opcode 5 is the unused slot: nothing changes; then store.
    let mut state = vec![0u32; 4];
    apply(&mut state, &vec![], &vec![2, 33, 5, 13]);
    assert_eq!(state, vec![0, 0, 33, 0]);
}

#[test]
fn apply_swap_and_load() {
    // state[0] = 17. Script: x = 0, y = 0; opcode 14 loads y = state[0 & 2]
    // = 17; opcode 12 swaps so x = 17, y = 0; opcode 14 loads y = state[0];
    // opcode 13 stores y = 17 at slot x & 2 = 2 (17 & 2 == 0)... x = 17,
    // 17 & 2 = 0, so it stores 17 back at slot 0.
    let mut state = vec![17u32, 0, 0, 0];
    apply(&mut state, &vec![], &vec![0, 0, 14, 12, 13]);
    assert_eq!(state, vec![0, 0, 0, 0]);
}

#[test]
fn apply_ingests_buffer_bytes_by_lane() {
    // y = 1; opcode 15 reads byte at index y % 3 = 1 into the low lane:
    // y = 0xBB; opcode 12 swaps (x = 0xBB, y = 0); opcode 16 reads byte at
    // 0 % 3 = 0 into the second lane: y = 0xAA * 256; store at slot
    // x & 2 = 2.
    let bytes = vec![0xAAu8, 0xBB, 0xCC];
    let mut state = vec![0u32; 4];
    apply(&mut state, &bytes, &vec![0, 1, 15, 12, 16, 13]);
    assert_eq!(state, vec![0, 0, 0xAA00, 0]);
}

#[test]
fn apply_empty_buffer_ingest_is_no_op() {
    let mut state = vec![0u32; 4];
    apply(&mut state, &vec![], &vec![0, 7, 15, 13]);
    // y stays 7; stored at slot 0.
    assert_eq!(state, vec![7, 0, 0, 0]);
}

#[test]
fn bitwig_evaluate_applies_in_order() {
    let state = vec![true, false, true, false];
    let prog = vec![
        reentry_game::bitwig::Instruction::Not(1),       // [t, t, t, f]
        reentry_game::bitwig::Instruction::And(0, 3),    // [f, t, t, f]
        reentry_game::bitwig::Instruction::Swp(0, 1),    // [t, f, t, f]
    ];
    let r = reentry_game::bitwig::evaluate(state, prog);
    assert_eq!(r, vec![true, false, true, false]);
}

#[test]
fn bitwig_evaluate_keeps_length() {
    for n in [1usize, 2, 4, 8, 32] {
        let state = vec![false; n];
        let r = reentry_game::bitwig::evaluate(state, vec![reentry_game::bitwig::Instruction::Not(0)]);
        assert_eq!(r.len(), n);
    }
}

#[test]
fn policy_evaluate_aliases_indices() {
    // State length 4: the mask is 2*4 - 1 = 7, so index 11 aliases to
    // 11 & 7 = 3, a valid slot.
    let state = vec![false, false, false, false];
    let r = reentry_game::environment::bitwig::evaluate(&vec![], state, &vec![reentry_game::environment::bitwig::Instruction::Not(11)]);
    assert_eq!(r, vec![false, false, false, true]);
}

#[test]
fn policy_evaluate_loads_input_bits() {
    // Input byte 0b0000_0110: bit 1 and bit 2 are set.
    let input = vec![0b0000_0110u8];
    let state = vec![false, false];
    let prog = vec![
        reentry_game::environment::bitwig::Instruction::Load(0, 1),  // state[0] := bit 1 = true
        reentry_game::environment::bitwig::Instruction::Load(1, 9),  // bit 9 is past the input: false
    ];
    let r = reentry_game::environment::bitwig::evaluate(&input, state, &prog);
    assert_eq!(r, vec![true, false]);
}

#[test]
fn policy_evaluate_keeps_length() {
    for n in [1usize, 2, 4, 16] {
        let state = vec![true; n];
        let r = reentry_game::environment::bitwig::evaluate(&vec![1, 2, 3], state, &vec![reentry_game::environment::bitwig::Instruction::And(0, 0)]);
        assert_eq!(r.len(), n);
    }
}
