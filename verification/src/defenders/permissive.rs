//! The defender that never interferes: every inbound call to a protected
//! contract is allowed to proceed.

use vstd::prelude::*;

use crate::environment::interfaces::Defender;
use crate::types::Address;
use crate::types::CallRequest;

verus! {

/// Accepts every call and carries unit state.
pub struct DefenderPermissive;

impl Defender for DefenderPermissive {
    type State = ();

    open spec fn wf(&self) -> bool {
        true
    }

    open spec fn state_wf(&self, s: ()) -> bool {
        true
    }

    open spec fn init_rel(&self, post: Self, contracts: Seq<(Address, Vec<u8>)>, s: ()) -> bool {
        true
    }

    open spec fn check_rel(&self, pre: (), req: CallRequest, post: (), ok: bool) -> bool {
        ok == true
    }

    fn init(&mut self, contracts: &Vec<(Address, Vec<u8>)>) -> (s: ()) {
        ()
    }

    fn check(&self, state: &(), inputs: &CallRequest) -> (r: ((), bool)) {
        ((), true)
    }
}

} // verus!
