//! Planning-level interfaces: an attacker or defender seen as one planning
//! step over the whole contract registry, and a runner that scores a pair of
//! loaded plans. They sit above the per-call strategy machines the game
//! controller drives.

use vstd::prelude::*;

use crate::types::Address;

verus! {

/// What an attacker plans from.
pub struct AttackerInfo {
    /// The target contracts: address, deployed code, and the code span of
    /// each function.
    pub targets: Vec<(Address, Vec<u8>, Vec<(u64, u64)>)>,
    /// The number of functions to use.
    pub chances: usize,
}

/// A whole attack plan.
pub struct AttackerAction {
    /// Whether the attacker is malicious for this action.
    pub malicious: bool,
    /// A pack of function calls: target, function, payload.
    pub fcallpack: Vec<Vec<(Address, u64, Vec<u8>)>>,
}

/// An attacker as one planning step: given what is known, produce the plan.
pub trait Attacker {
    fn act(&mut self, x: AttackerInfo) -> AttackerAction;
}

/// What a defender plans from.
pub struct DefenderInfo {
    /// The target contracts: address, deployed code, and the code span of
    /// each function.
    pub targets: Vec<(Address, Vec<u8>, Vec<(u64, u64)>)>,
}

/// A whole defence plan.
pub struct DefenderAction {
    /// Defending conditions for each function in each contract, checked on
    /// call input.
    pub hook_inp: Vec<(Address, Vec<(u64, Vec<u8>)>)>,
    /// The same, checked on call output.
    pub hook_out: Vec<(Address, Vec<(u64, Vec<u8>)>)>,
}

/// A defender as one planning step: given what is known, produce the plan.
pub trait Defender {
    fn act(&mut self, x: DefenderInfo) -> DefenderAction;
}

/// Scores one game: hands each side its information, loads both plans, and
/// reports the attacker's money delta together with an execution trace.
pub trait Runner {
    /// What the attacker gets to see.
    fn attacker_info(&self) -> AttackerInfo;

    /// What the defender gets to see.
    fn defender_info(&self) -> DefenderInfo;

    /// Loads the attack plan.
    fn attacker_load(&mut self, action: AttackerAction);

    /// Loads the defence plan.
    fn defender_load(&mut self, action: DefenderAction);

    /// Plays the game and reports the attacker's balance delta and a trace.
    fn evaluate_util(&mut self) -> (i128, Vec<u8>);
}

} // verus!
