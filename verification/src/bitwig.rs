//! A minimal dialect of the bit-manipulation language for the defender: a
//! program is a list of instructions over a mutable array of boolean flags,
//! with indices used as written. The richer dialect, with input loading and
//! index aliasing, lives beside the game engine.

use vstd::prelude::*;

verus! {

/// One instruction over the flag array.
#[derive(Clone, Copy, Debug, PartialEq, Eq, Structural)]
pub enum Instruction {
    And(usize, usize),
    Not(usize),
    Swp(usize, usize),
}

/// Every index the instruction touches lies inside a state of length `len`.
pub open spec fn instr_in_range(i: Instruction, len: nat) -> bool {
    match i {
        Instruction::And(x, y) => x < len && y < len,
        Instruction::Not(x) => x < len,
        Instruction::Swp(x, y) => x < len && y < len,
    }
}

/// The state after one instruction.
pub open spec fn eval_step(s: Seq<bool>, i: Instruction) -> Seq<bool> {
    match i {
        Instruction::And(x, y) => s.update(x as int, s[x as int] && s[y as int]),
        Instruction::Not(x) => s.update(x as int, !s[x as int]),
        Instruction::Swp(x, y) => s.update(x as int, s[y as int]).update(y as int, s[x as int]),
    }
}

/// The state after the first `n` instructions, in program order.
pub open spec fn eval_prog(s: Seq<bool>, instrs: Seq<Instruction>, n: int) -> Seq<bool>
    decreases n,
{
    if n <= 0 {
        s
    } else {
        eval_step(eval_prog(s, instrs, n - 1), instrs[n - 1])
    }
}

/// The state after the whole program.
pub open spec fn evaluate_spec(s: Seq<bool>, instrs: Seq<Instruction>) -> Seq<bool> {
    eval_prog(s, instrs, instrs.len() as int)
}

/// Running a program never changes the length of the state.
pub proof fn lemma_eval_prog_len(s: Seq<bool>, instrs: Seq<Instruction>, n: int)
    requires
        0 <= n <= instrs.len(),
        forall|k: int| 0 <= k < instrs.len() ==> instr_in_range(#[trigger] instrs[k], s.len()),
    ensures
        eval_prog(s, instrs, n).len() == s.len(),
    decreases n,
{
    if n > 0 {
        lemma_eval_prog_len(s, instrs, n - 1);
    }
}

/// Applies the instructions in program order, mutating a working copy of the
/// state, and returns the final state; always of the input state's length.
pub fn evaluate(input: Vec<bool>, instr: Vec<Instruction>) -> (r: Vec<bool>)
    requires
        forall|k: int|
            0 <= k < instr@.len() ==> instr_in_range(#[trigger] instr@[k], input@.len()),
    ensures
        r@ == evaluate_spec(input@, instr@),
        r@.len() == input@.len(),
{
    let ghost s0 = input@;
    let mut state = input;
    let mut i: usize = 0;
    while i < instr.len()
        invariant
            i <= instr@.len(),
            forall|k: int| 0 <= k < instr@.len() ==> instr_in_range(#[trigger] instr@[k], s0.len()),
            state@ == eval_prog(s0, instr@, i as int),
            state@.len() == s0.len(),
        decreases instr@.len() - i,
    {
        proof {
            lemma_eval_prog_len(s0, instr@, i as int);
            assert(instr_in_range(instr@[i as int], s0.len()));
        }
        match instr[i] {
            Instruction::And(x, y) => {
                let v = state[x] && state[y];
                state.set(x, v);
            },
            Instruction::Not(x) => {
                let v = !state[x];
                state.set(x, v);
            },
            Instruction::Swp(x, y) => {
                let t = state[x];
                let v = state[y];
                state.set(x, v);
                state.set(y, t);
            },
        }
        i = i + 1;
        proof {
            lemma_eval_prog_len(s0, instr@, i as int);
            assert(eval_prog(s0, instr@, i as int) == eval_step(
                eval_prog(s0, instr@, i - 1),
                instr@[i - 1],
            ));
        }
    }
    state
}

} // verus!
