//! The bit-manipulation language for the defender: a short program over an
//! array of boolean flags whose length is a power of two, conditioned on the
//! raw bytes of an incoming call. Indices are reduced by a bitmask derived
//! from the state length, so fixed-width programs can address any state size.

use vstd::prelude::*;

use crate::bitops::byte_bit;
use crate::bitops::is_power_of_two;

verus! {

/// One instruction over the flag array. `Load(i, j)` reads bit `j` of the
/// call input into flag `i`; the other three combine flags in place.
#[derive(Clone, Copy, Debug, PartialEq, Eq, Structural)]
pub enum Instruction {
    And(usize, usize),
    Not(usize),
    Load(usize, usize),
    Swap(usize, usize),
}

/// The index mask: one less than twice the state length, the literal
/// `(1 << (t + 1)) - 1` for a state of length `2^t` that the policy language
/// defines. It spans twice the state, so it under-aliases: a masked index
/// may still fall at or beyond the state length.
pub open spec fn alias_mask(len: nat) -> usize {
    (2 * len - 1) as usize
}

/// Index `x` after reduction by the alias mask.
pub open spec fn aliased(x: usize, len: nat) -> usize {
    x & alias_mask(len)
}

/// Every index the instruction names falls inside the state once masked.
/// Because the mask spans twice the state length, this admits exactly those
/// programs whose masked indices alias into valid slots; with a mask one bit
/// narrower every program would qualify.
pub open spec fn instr_ok(i: Instruction, len: nat) -> bool {
    match i {
        Instruction::And(x, y) => aliased(x, len) < len && aliased(y, len) < len,
        Instruction::Not(x) => aliased(x, len) < len,
        Instruction::Load(x, y) => aliased(x, len) < len,
        Instruction::Swap(x, y) => aliased(x, len) < len && aliased(y, len) < len,
    }
}

/// Bit `j` of the call input, least significant bit of each byte first, or
/// false past the input's end.
pub open spec fn input_bit(input: Seq<u8>, j: int) -> bool {
    if 0 <= j < 8 * input.len() {
        byte_bit(input, j)
    } else {
        false
    }
}

/// The state after one instruction; indices reduced by the alias mask.
pub open spec fn eval_step(input: Seq<u8>, s: Seq<bool>, i: Instruction) -> Seq<bool> {
    let len = s.len();
    match i {
        Instruction::And(x, y) => s.update(
            aliased(x, len) as int,
            s[aliased(x, len) as int] && s[aliased(y, len) as int],
        ),
        Instruction::Not(x) => s.update(aliased(x, len) as int, !s[aliased(x, len) as int]),
        Instruction::Load(x, y) => s.update(aliased(x, len) as int, input_bit(input, y as int)),
        Instruction::Swap(x, y) => s.update(aliased(x, len) as int, s[aliased(y, len) as int])
            .update(aliased(y, len) as int, s[aliased(x, len) as int]),
    }
}

/// The state after the first `n` instructions, in program order.
pub open spec fn eval_prog(input: Seq<u8>, s: Seq<bool>, instrs: Seq<Instruction>, n: int) -> Seq<
    bool,
>
    decreases n,
{
    if n <= 0 {
        s
    } else {
        eval_step(input, eval_prog(input, s, instrs, n - 1), instrs[n - 1])
    }
}

/// The state after the whole program.
pub open spec fn evaluate_spec(input: Seq<u8>, s: Seq<bool>, instrs: Seq<Instruction>) -> Seq<
    bool,
> {
    eval_prog(input, s, instrs, instrs.len() as int)
}

/// Running a policy program never changes the length of the state.
pub proof fn lemma_eval_prog_len(input: Seq<u8>, s: Seq<bool>, instrs: Seq<Instruction>, n: int)
    requires
        0 <= n <= instrs.len(),
        forall|k: int| 0 <= k < instrs.len() ==> instr_ok(#[trigger] instrs[k], s.len()),
    ensures
        eval_prog(input, s, instrs, n).len() == s.len(),
    decreases n,
{
    if n > 0 {
        lemma_eval_prog_len(input, s, instrs, n - 1);
    }
}

/// Evaluates a defender program against the policy state and the bytes of an
/// incoming call: applies the instructions in order over a working copy and
/// returns the final state, always of the input state's length. By the
/// game's convention, bit 0 of the result is the accept bit.
pub fn evaluate(input: &Vec<u8>, state: Vec<bool>, instr: &Vec<Instruction>) -> (r: Vec<bool>)
    requires
        is_power_of_two(state@.len() as int),
        state@.len() <= usize::MAX / 2,
        forall|k: int| 0 <= k < instr@.len() ==> instr_ok(#[trigger] instr@[k], state@.len()),
    ensures
        r@ == evaluate_spec(input@, state@, instr@),
        r@.len() == state@.len(),
{
    let ghost s0 = state@;
    let mut state = state;
    let n: usize = 2 * state.len() - 1;
    proof {
        assert(n == alias_mask(s0.len()));
    }
    let mut i: usize = 0;
    while i < instr.len()
        invariant
            i <= instr@.len(),
            n == alias_mask(s0.len()),
            s0.len() <= usize::MAX / 2,
            forall|k: int| 0 <= k < instr@.len() ==> instr_ok(#[trigger] instr@[k], s0.len()),
            state@ == eval_prog(input@, s0, instr@, i as int),
            state@.len() == s0.len(),
        decreases instr@.len() - i,
    {
        proof {
            assert(instr_ok(instr@[i as int], s0.len()));
        }
        match instr[i] {
            Instruction::And(x, y) => {
                let xi = x & n;
                let yi = y & n;
                let v = state[xi] && state[yi];
                state.set(xi, v);
            },
            Instruction::Not(x) => {
                let xi = x & n;
                let v = !state[xi];
                state.set(xi, v);
            },
            Instruction::Load(x, y) => {
                let xi = x & n;
                let v = if y / 8 < input.len() {
                    (input[y / 8] >> ((y % 8) as u8)) & 1 == 1
                } else {
                    false
                };
                proof {
                    assert(v == input_bit(input@, y as int));
                }
                state.set(xi, v);
            },
            Instruction::Swap(x, y) => {
                let xi = x & n;
                let yi = y & n;
                let t = state[xi];
                let v = state[yi];
                state.set(xi, v);
                state.set(yi, t);
            },
        }
        i = i + 1;
        proof {
            assert(eval_prog(input@, s0, instr@, i as int) == eval_step(
                input@,
                eval_prog(input@, s0, instr@, i - 1),
                instr@[i - 1],
            ));
        }
    }
    state
}

} // verus!
