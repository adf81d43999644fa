//! The strategy abstraction: an attacker and a defender are polymorphic
//! state machines. Each implementation owns an opaque state type and
//! describes its behaviour through relations the controller's contracts
//! quote; the relations make each strategy operation's effect checkable.

use vstd::prelude::*;

use crate::types::Address;
use crate::types::CallRequest;
use crate::types::CallResult;

verus! {

/// A defender strategy: a pure policy that decides, for each inbound call to
/// a protected contract, whether the call may proceed. One state value
/// exists per call-nesting depth currently open against a protected
/// contract; the controller keeps them on a stack.
pub trait Defender: Sized {
    type State;

    /// The strategy value is well formed.
    spec fn wf(&self) -> bool;

    /// A state value the strategy can work on.
    spec fn state_wf(&self, s: Self::State) -> bool;

    /// How `init` relates the strategy before and after the call, the
    /// contract registry it saw, and the rest state it produced.
    spec fn init_rel(&self, post: Self, contracts: Seq<(Address, Vec<u8>)>, s: Self::State) -> bool;

    /// How `check` relates the state it was given, the inbound call, the new
    /// state and the verdict.
    spec fn check_rel(
        &self,
        pre: Self::State,
        req: CallRequest,
        post: Self::State,
        ok: bool,
    ) -> bool;

    /// Learns the protected contracts and produces the rest state.
    fn init(&mut self, contracts: &Vec<(Address, Vec<u8>)>) -> (s: Self::State)
        requires
            old(self).wf(),
        ensures
            final(self).wf(),
            final(self).state_wf(s),
            old(self).init_rel(*final(self), contracts@, s),
    ;

    /// Decides one inbound call from the state on top of the stack: the new
    /// state to push, and whether the call may proceed (false means the call
    /// is reverted before its body runs).
    fn check(&self, state: &Self::State, inputs: &CallRequest) -> (r: (Self::State, bool))
        requires
            self.wf(),
            self.state_wf(*state),
        ensures
            self.state_wf(r.0),
            self.check_rel(*state, *inputs, r.0, r.1),
    ;
}

/// An attacker strategy: a single adversarial will, with exactly one state
/// value threaded linearly through every decision and every consumed call
/// return for the lifetime of one game.
pub trait Attacker: Sized {
    type State;

    /// The strategy value is well formed.
    spec fn wf(&self) -> bool;

    /// A state value the strategy can work on.
    spec fn state_wf(&self, s: Self::State) -> bool;

    /// How `init` relates the strategy before and after the call, the
    /// contract registry it saw, and the initial state it produced.
    spec fn init_rel(&self, post: Self, contracts: Seq<(Address, Vec<u8>)>, s: Self::State) -> bool;

    /// How one decision step relates the state before, the state after, and
    /// the produced call, if any.
    spec fn make_rel(&self, pre: Self::State, post: Self::State, r: Option<CallRequest>) -> bool;

    /// How consuming a call outcome transforms the state.
    spec fn return_rel(
        &self,
        pre: Self::State,
        ret: CallResult,
        gas: u64,
        out: Seq<u8>,
        post: Self::State,
    ) -> bool;

    /// How the end-of-turn verdict relates the state before and after and
    /// the verdict itself.
    spec fn check_rel(&self, pre: Self::State, post: Self::State, ok: bool) -> bool;

    /// Learns the deployed contracts and produces the initial state.
    fn init(&mut self, contracts: &Vec<(Address, Vec<u8>)>) -> (s: Self::State)
        requires
            old(self).wf(),
        ensures
            final(self).wf(),
            final(self).state_wf(s),
            old(self).init_rel(*final(self), contracts@, s),
    ;

    /// Produces the next malicious call, or none to end the turn. The call
    /// budget is consumed by the controller, never here.
    fn make_mal_call(&self, state: &mut Self::State) -> (r: Option<CallRequest>)
        requires
            self.wf(),
            self.state_wf(*old(state)),
        ensures
            self.state_wf(*final(state)),
            self.make_rel(*old(state), *final(state), r),
    ;

    /// Folds a dispatched call's outcome back into the state.
    fn take_return(&self, state: &mut Self::State, ret: CallResult, gas: u64, out: Vec<u8>)
        requires
            self.wf(),
            self.state_wf(*old(state)),
        ensures
            self.state_wf(*final(state)),
            self.return_rel(*old(state), ret, gas, out@, *final(state)),
    ;

    /// The overall verdict for the attacker's turn.
    fn check(&self, state: &mut Self::State) -> (ok: bool)
        requires
            self.wf(),
            self.state_wf(*old(state)),
        ensures
            self.state_wf(*final(state)),
            self.check_rel(*old(state), *final(state), ok),
    ;
}

} // verus!
