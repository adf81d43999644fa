//! The scripted replay attacker: a fixed attack plan with one list of calls
//! per "chance" — per nesting depth its turn is taken at — popped in LIFO
//! order within each list.

use vstd::prelude::*;

use crate::environment::interfaces::Attacker;
use crate::types::Address;
use crate::types::CallRequest;
use crate::types::CallResult;
use crate::types::Uint256;

verus! {

/// A view of one scripted call: target, value and payload bytes.
pub open spec fn req_view(r: CallRequest) -> (Address, Uint256, Seq<u8>) {
    (r.target, r.value, r.input@)
}

/// A view of one chance's scripted calls.
pub open spec fn calls_view(v: Seq<CallRequest>) -> Seq<(Address, Uint256, Seq<u8>)> {
    v.map_values(|c: CallRequest| req_view(c))
}

/// A view of a whole script: one call list per chance.
pub open spec fn group_view(g: Seq<Vec<CallRequest>>) -> Seq<Seq<(Address, Uint256, Seq<u8>)>> {
    g.map_values(|v: Vec<CallRequest>| calls_view(v@))
}

/// The replay attacker's working state: the chance counter — the nesting
/// depth of the turn being played — and its own copy of the script.
pub struct FixedState {
    pub count: usize,
    pub group: Vec<Vec<CallRequest>>,
}

/// An attacker that replays a fixed attack plan rather than deciding
/// adaptively.
pub struct AttackerFixed {
    pub group: Vec<Vec<CallRequest>>,
}

impl AttackerFixed {
    /// Builds the attacker from its scripted call groups.
    pub fn new(group: Vec<Vec<CallRequest>>) -> (r: AttackerFixed)
        ensures
            r.group@ == group@,
    {
        AttackerFixed { group }
    }
}

/// Copies a script, group by group and call by call.
fn clone_group(g: &Vec<Vec<CallRequest>>) -> (r: Vec<Vec<CallRequest>>)
    ensures
        group_view(r@) == group_view(g@),
        r@.len() == g@.len(),
{
    let mut r: Vec<Vec<CallRequest>> = Vec::new();
    let mut i: usize = 0;
    while i < g.len()
        invariant
            i <= g@.len(),
            r@.len() == i,
            forall|j: int| 0 <= j < i ==> calls_view(#[trigger] r@[j]@) == calls_view(g@[j]@),
        decreases g@.len() - i,
    {
        let gi = &g[i];
        let mut inner: Vec<CallRequest> = Vec::new();
        let mut k: usize = 0;
        while k < gi.len()
            invariant
                k <= gi@.len(),
                inner@.len() == k,
                forall|t: int| 0 <= t < k ==> req_view(#[trigger] inner@[t]) == req_view(gi@[t]),
            decreases gi@.len() - k,
        {
            inner.push(gi[k].clone());
            k = k + 1;
        }
        proof {
            assert(calls_view(inner@) =~= calls_view(gi@));
        }
        r.push(inner);
        i = i + 1;
    }
    proof {
        assert(group_view(r@) =~= group_view(g@));
    }
    r
}

impl Attacker for AttackerFixed {
    type State = FixedState;

    open spec fn wf(&self) -> bool {
        true
    }

    open spec fn state_wf(&self, s: FixedState) -> bool {
        true
    }

    /// `init` leaves the strategy alone and hands out a fresh state: the
    /// chance counter at zero and a copy of the script.
    open spec fn init_rel(
        &self,
        post: Self,
        contracts: Seq<(Address, Vec<u8>)>,
        s: FixedState,
    ) -> bool {
        &&& group_view(post.group@) == group_view(self.group@)
        &&& s.count == 0
        &&& group_view(s.group@) == group_view(self.group@)
    }

    /// One decision: the chance counter rises by one (it saturates only at
    /// the machine's limit); past the last group, or once the group for this
    /// chance is empty, no call is produced; otherwise the group's last call
    /// is removed and produced.
    open spec fn make_rel(&self, pre: FixedState, post: FixedState, r: Option<CallRequest>) -> bool {
        let c2: usize = if pre.count < usize::MAX {
            (pre.count + 1) as usize
        } else {
            pre.count
        };
        &&& post.count == c2
        &&& if c2 > pre.group@.len() {
            group_view(post.group@) == group_view(pre.group@) && r is None
        } else {
            if calls_view(pre.group@[c2 - 1]@).len() == 0 {
                group_view(post.group@) == group_view(pre.group@) && r is None
            } else {
                &&& r is Some
                &&& req_view(r.unwrap()) == calls_view(pre.group@[c2 - 1]@).last()
                &&& group_view(post.group@) == group_view(pre.group@).update(
                    c2 - 1,
                    calls_view(pre.group@[c2 - 1]@).drop_last(),
                )
            }
        }
    }

    /// A consumed return lowers the chance counter by one; at zero it stays.
    open spec fn return_rel(
        &self,
        pre: FixedState,
        ret: CallResult,
        gas: u64,
        out: Seq<u8>,
        post: FixedState,
    ) -> bool {
        &&& post.count == if pre.count > 0 {
            (pre.count - 1) as usize
        } else {
            0usize
        }
        &&& group_view(post.group@) == group_view(pre.group@)
    }

    /// The replay attacker always accepts its turn and touches nothing.
    open spec fn check_rel(&self, pre: FixedState, post: FixedState, ok: bool) -> bool {
        post == pre && ok == true
    }

    fn init(&mut self, contracts: &Vec<(Address, Vec<u8>)>) -> (s: FixedState) {
        let group = clone_group(&self.group);
        FixedState { count: 0, group }
    }

    fn make_mal_call(&self, state: &mut FixedState) -> (r: Option<CallRequest>) {
        if state.count < usize::MAX {
            state.count = state.count + 1;
        }
        let c = state.count;
        if c > state.group.len() {
            None
        } else {
            let ghost pre_group = state.group@;
            let r = state.group[c - 1].pop();
            proof {
                assert(calls_view(pre_group[c - 1]@).len() == pre_group[c - 1]@.len());
                if pre_group[c - 1]@.len() > 0 {
                    assert(calls_view(state.group@[c - 1]@) =~= calls_view(
                        pre_group[c - 1]@,
                    ).drop_last());
                    assert(group_view(state.group@) =~= group_view(pre_group).update(
                        c - 1,
                        calls_view(pre_group[c - 1]@).drop_last(),
                    ));
                } else {
                    assert(state.group@[c - 1]@ =~= pre_group[c - 1]@);
                    assert(group_view(state.group@) =~= group_view(pre_group));
                }
            }
            r
        }
    }

    fn take_return(&self, state: &mut FixedState, ret: CallResult, gas: u64, out: Vec<u8>) {
        if state.count > 0 {
            state.count = state.count - 1;
        }
    }

    fn check(&self, state: &mut FixedState) -> (ok: bool) {
        true
    }
}

} // verus!
