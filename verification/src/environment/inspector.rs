//! The game controller: the single observer attached to the executor for the
//! duration of one game. It intercepts every call boundary, consults the
//! active strategy, keeps one defender state per open protected call on a
//! stack, and enforces the attacker's global call budget.
//!
//! The surrounding program drives it: on a call begin it classifies the
//! callee (`classify`); an administrator call triggers the one-time
//! bootstrap through the executor; a protected call goes through
//! `begin_protected`, whose verdict becomes continue or revert; a call to
//! the attacker's own address runs the turn loop — `attacker_turn_next`,
//! dispatch through the executor, `attacker_take_return`, until no call
//! comes, then `attacker_verdict`; any other callee passes through. On a
//! call end it calls `end_call`.

use vstd::prelude::*;

use crate::environment::interfaces::Attacker;
use crate::environment::interfaces::Defender;
use crate::types::Address;
use crate::types::CallRequest;
use crate::types::CallResult;

verus! {

/// What a callee address means to the controller, checked in this order: the
/// administrator bootstrap account, a protected target, the attacker's own
/// identity, or nothing of interest.
#[derive(Clone, Copy, Debug, PartialEq, Eq, Structural)]
pub enum Role {
    Admin,
    Protected,
    AttackerOwn,
    Other,
}

/// The controller for one game: the protected targets and the attacker's
/// identity, the remaining call budget, the defender's state stack and the
/// attacker's single state value.
pub struct GameInspector<DP: Defender, AP: Attacker> {
    /// The administrator bootstrap account.
    pub admin: Address,
    /// Calls the attacker may still issue.
    pub limit: usize,
    /// The protected targets, and the attacker's own address.
    pub accounts: (Vec<Address>, Address),
    /// The defender strategy and its stack: one state per open protected
    /// call, above the rest state produced by `init`.
    pub defender: DP,
    pub defstate: Vec<DP::State>,
    /// The attacker strategy and its single threaded state.
    pub attacker: AP,
    pub attstate: AP::State,
    /// The budget the game started with.
    pub initial_budget: Ghost<nat>,
    /// Sub-calls dispatched on the attacker's behalf so far.
    pub dispatched: Ghost<nat>,
}

impl<DP: Defender, AP: Attacker> GameInspector<DP, AP> {
    /// The controller's invariant: both strategies and every held state are
    /// well formed, and the dispatched calls and the remaining limit always
    /// sum to the initial budget.
    pub open spec fn wf(self) -> bool {
        &&& self.defender.wf()
        &&& self.attacker.wf()
        &&& self.attacker.state_wf(self.attstate)
        &&& (forall|i: int|
            0 <= i < self.defstate@.len() ==> self.defender.state_wf(#[trigger] self.defstate@[i]))
        &&& self.dispatched@ + self.limit == self.initial_budget@
    }

    /// The role of a callee address, in the controller's priority order.
    pub open spec fn spec_role(self, a: Address) -> Role {
        if a == self.admin {
            Role::Admin
        } else if self.accounts.0@.contains(a) {
            Role::Protected
        } else if a == self.accounts.1 {
            Role::AttackerOwn
        } else {
            Role::Other
        }
    }

    /// Builds the controller for one game: both strategies discover the
    /// contract registry, the defender's rest state becomes the bottom of
    /// the stack, and the budget is set.
    pub fn new(
        admin: Address,
        limit: usize,
        contracts: &Vec<(Address, Vec<u8>)>,
        attacker_account: Address,
        attacker: AP,
        defender: DP,
    ) -> (r: Self)
        requires
            attacker.wf(),
            defender.wf(),
        ensures
            r.wf(),
            r.admin == admin,
            r.limit == limit,
            r.initial_budget@ == limit,
            r.dispatched@ == 0,
            r.accounts.1 == attacker_account,
            r.accounts.0@.len() == contracts@.len(),
            forall|i: int| 0 <= i < contracts@.len() ==> r.accounts.0@[i] == contracts@[i].0,
            r.defstate@.len() == 1,
            attacker.init_rel(r.attacker, contracts@, r.attstate),
            defender.init_rel(r.defender, contracts@, r.defstate@[0]),
    {
        let mut attacker = attacker;
        let mut defender = defender;
        let attstate = attacker.init(contracts);
        let rest = defender.init(contracts);
        let mut defstate: Vec<DP::State> = Vec::new();
        defstate.push(rest);
        let mut targets: Vec<Address> = Vec::new();
        let mut i: usize = 0;
        while i < contracts.len()
            invariant
                i <= contracts@.len(),
                targets@.len() == i,
                forall|j: int| 0 <= j < i ==> targets@[j] == contracts@[j].0,
            decreases contracts@.len() - i,
        {
            targets.push(contracts[i].0);
            i = i + 1;
        }
        GameInspector {
            admin,
            limit,
            accounts: (targets, attacker_account),
            defender,
            defstate,
            attacker,
            attstate,
            initial_budget: Ghost(limit as nat),
            dispatched: Ghost(0),
        }
    }

    /// Classifies a callee address.
    pub fn classify(&self, a: Address) -> (r: Role)
        ensures
            r == self.spec_role(a),
    {
        if a == self.admin {
            Role::Admin
        } else if contains_address(&self.accounts.0, a) {
            Role::Protected
        } else if a == self.accounts.1 {
            Role::AttackerOwn
        } else {
            Role::Other
        }
    }

    /// A call begin for a protected target: asks the defender about the
    /// inbound call using the state on top of the stack, pushes the state
    /// the defender returned, and reports the verdict — false means the
    /// executor must revert the call with no gas consumed and empty output.
    pub fn begin_protected(&mut self, inputs: &CallRequest) -> (ok: bool)
        requires
            old(self).wf(),
            old(self).defstate@.len() >= 1,
        ensures
            final(self).wf(),
            *final(self) == (GameInspector { defstate: final(self).defstate, ..*old(self) }),
            final(self).defstate@.len() == old(self).defstate@.len() + 1,
            final(self).defstate@.drop_last() == old(self).defstate@,
            old(self).defender.check_rel(
                old(self).defstate@.last(),
                *inputs,
                final(self).defstate@.last(),
                ok,
            ),
    {
        let idx = self.defstate.len() - 1;
        let (state, ok) = self.defender.check(&self.defstate[idx], inputs);
        self.defstate.push(state);
        proof {
            assert(self.defstate@.drop_last() =~= old(self).defstate@);
        }
        ok
    }

    /// A call end: for a protected target pops exactly the entry its call
    /// begin pushed; for every other address does nothing. A call end for a
    /// protected target without a matching begin is a programming error and
    /// is excluded by the precondition.
    pub fn end_call(&mut self, contract: Address)
        requires
            old(self).wf(),
            old(self).accounts.0@.contains(contract) ==> old(self).defstate@.len() >= 1,
        ensures
            final(self).wf(),
            *final(self) == (GameInspector { defstate: final(self).defstate, ..*old(self) }),
            old(self).accounts.0@.contains(contract) ==> final(self).defstate@ == old(self).defstate@.drop_last(),
            !old(self).accounts.0@.contains(contract) ==> final(self).defstate@ == old(self).defstate@,
    {
        if contains_address(&self.accounts.0, contract) {
            self.defstate.pop();
            proof {
                assert(self.defstate@ =~= old(self).defstate@.drop_last());
            }
        }
    }

    /// One step of the attacker's turn: while budget remains, asks the
    /// attacker for its next call; a produced call costs one unit of budget
    /// and must be dispatched through the executor, and its outcome handed
    /// to `attacker_take_return`. With no budget left the attacker is not
    /// consulted and no call is produced.
    pub fn attacker_turn_next(&mut self) -> (r: Option<CallRequest>)
        requires
            old(self).wf(),
        ensures
            final(self).wf(),
            *final(self) == (GameInspector {
                limit: final(self).limit,
                attstate: final(self).attstate,
                dispatched: final(self).dispatched,
                ..*old(self)
            }),
            old(self).limit == 0 ==> r is None && *final(self) == *old(self),
            old(self).limit > 0 ==> old(self).attacker.make_rel(
                old(self).attstate,
                final(self).attstate,
                r,
            ),
            r is Some ==> old(self).limit > 0 && final(self).limit == old(self).limit - 1
                && final(self).dispatched@ == old(self).dispatched@ + 1,
            r is None ==> final(self).limit == old(self).limit
                && final(self).dispatched@ == old(self).dispatched@,
            final(self).initial_budget == old(self).initial_budget,
    {
        if self.limit == 0 {
            return None;
        }
        let r = self.attacker.make_mal_call(&mut self.attstate);
        if r.is_some() {
            self.limit = self.limit - 1;
            proof {
                self.dispatched@ = self.dispatched@ + 1;
            }
        }
        r
    }

    /// Hands a dispatched sub-call's outcome back to the attacker strategy.
    pub fn attacker_take_return(&mut self, ret: CallResult, gas: u64, out: Vec<u8>)
        requires
            old(self).wf(),
        ensures
            final(self).wf(),
            *final(self) == (GameInspector { attstate: final(self).attstate, ..*old(self) }),
            old(self).attacker.return_rel(old(self).attstate, ret, gas, out@, final(self).attstate),
    {
        self.attacker.take_return(&mut self.attstate, ret, gas, out);
    }

    /// The attacker's overall verdict for its turn, translated by the caller
    /// into continue or revert for the executor.
    pub fn attacker_verdict(&mut self) -> (ok: bool)
        requires
            old(self).wf(),
        ensures
            final(self).wf(),
            *final(self) == (GameInspector { attstate: final(self).attstate, ..*old(self) }),
            old(self).attacker.check_rel(old(self).attstate, final(self).attstate, ok),
    {
        self.attacker.check(&mut self.attstate)
    }

    /// Law: the call budget is monotonically consumed. The dispatched count
    /// and the remaining limit always sum to the budget the game started
    /// with (`wf`), and `attacker_turn_next` moves exactly one unit from the
    /// limit to the count per produced call; so the number of sub-calls
    /// dispatched on the attacker's behalf can never exceed the configured
    /// budget.
    pub proof fn lemma_budget_monotonic(g: Self)
        requires
            g.wf(),
        ensures
            g.dispatched@ <= g.initial_budget@,
            g.limit <= g.initial_budget@,
    {
    }
}

/// Whether `v` holds the address `a`.
pub fn contains_address(v: &Vec<Address>, a: Address) -> (r: bool)
    ensures
        r == v@.contains(a),
{
    let mut i: usize = 0;
    while i < v.len()
        invariant
            i <= v@.len(),
            forall|j: int| 0 <= j < i ==> v@[j] != a,
        decreases v@.len() - i,
    {
        if v[i] == a {
            return true;
        }
        i = i + 1;
    }
    false
}

/// The defender stack depth after a sequence of protected call boundary
/// events, starting from depth `d`: true marks a call begin (a push), false
/// a call end (a pop).
pub open spec fn depth_after(d: int, events: Seq<bool>) -> int
    decreases events.len(),
{
    if events.len() == 0 {
        d
    } else {
        depth_after(if events[0] {
            d + 1
        } else {
            d - 1
        }, events.drop_first())
    }
}

/// How many more begins than ends a sequence of events holds.
pub open spec fn begin_excess(events: Seq<bool>) -> int
    decreases events.len(),
{
    if events.len() == 0 {
        0
    } else {
        (if events[0] {
            1int
        } else {
            -1int
        }) + begin_excess(events.drop_first())
    }
}

/// The depth after a sequence of events is the starting depth plus the
/// sequence's excess of begins over ends.
pub proof fn lemma_depth_is_excess(d: int, events: Seq<bool>)
    ensures
        depth_after(d, events) == d + begin_excess(events),
    decreases events.len(),
{
    if events.len() > 0 {
        lemma_depth_is_excess(if events[0] {
            d + 1
        } else {
            d - 1
        }, events.drop_first());
    }
}

/// Law: defender stack discipline. Each begin for a protected target pushes
/// exactly one state and each end pops exactly one (`begin_protected`,
/// `end_call`), so after any matching sequence of begins and ends — one with
/// as many ends as begins — the stack depth returns to its pre-sequence
/// depth. An end without a matching begin is fatal and is excluded by
/// `end_call`'s precondition.
pub proof fn lemma_stack_discipline(d: int, events: Seq<bool>)
    requires
        begin_excess(events) == 0,
    ensures
        depth_after(d, events) == d,
{
    lemma_depth_is_excess(d, events);
}

} // verus!
