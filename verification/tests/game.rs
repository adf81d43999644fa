//! Tests for the game controller, the strategies, and two end-to-end
//! reentrancy scenarios played against a small in-test executor.

use reentry_game::attackers::AttackerFixed;
use reentry_game::defenders::DefenderDenial;
use reentry_game::defenders::DefenderPermissive;
use reentry_game::environment::inspector::GameInspector;
use reentry_game::environment::inspector::Role;
use reentry_game::environment::interfaces::Attacker;
use reentry_game::environment::interfaces::Defender;
use reentry_game::types::Address;
use reentry_game::types::CallRequest;
use reentry_game::types::CallResult;
use reentry_game::types::Uint256;

fn addr(n: u128) -> Address {
    Address::from_u128(n)
}

fn req(target: Address, value: u64, input: Vec<u8>) -> CallRequest {
    CallRequest { target, value: Uint256::from_u64(value), input }
}

/// The vulnerable target contract's ledger: its own balance, the attacker's
/// balance, and the credit the target records for the attacker.
struct Ledger {
    target_balance: u64,
    attacker_balance: u64,
    credit: i128,
}

const DONATE: u8 = 1;
const WITHDRAW: u8 = 2;

/// A tiny executor for the scenario: it understands one vulnerable contract
/// with a donate function and a reentrancy-vulnerable withdraw function
/// (it sends the money before it reduces the credit), and it runs the
/// attacker's own code as "issue the next scripted calls".
///
/// Payload layout: one selector byte, then 8 little-endian amount bytes.
fn dispatch<D: Defender, A: Attacker>(
    insp: &mut GameInspector<D, A>,
    ledger: &mut Ledger,
    call: &CallRequest,
) -> CallResult {
    match insp.classify(call.target) {
        Role::Protected => {
            let ok = insp.begin_protected(call);
            if !ok {
                insp.end_call(call.target);
                return CallResult::Revert;
            }
            let selector = if call.input.is_empty() { 0 } else { call.input[0] };
            if selector == DONATE {
                let amount = call.value.w0;
                if ledger.attacker_balance >= amount {
                    ledger.attacker_balance -= amount;
                    ledger.target_balance += amount;
                    ledger.credit += amount as i128;
                }
            } else if selector == WITHDRAW {
                let mut amount_bytes = [0u8; 8];
                amount_bytes.copy_from_slice(&call.input[1..9]);
                let amount = u64::from_le_bytes(amount_bytes);
                if ledger.credit >= amount as i128 && ledger.target_balance >= amount {
                    // The vulnerable ordering: pay out first, which hands
                    // control to the attacker's fallback code...
                    ledger.target_balance -= amount;
                    ledger.attacker_balance += amount;
                    let fallback = req(insp.accounts.1, 0, vec![]);
                    dispatch(insp, ledger, &fallback);
                    // ...and only then reduce the credit.
                    ledger.credit -= amount as i128;
                }
            }
            insp.end_call(call.target);
            CallResult::Continue
        }
        Role::AttackerOwn => {
            loop {
                match insp.attacker_turn_next() {
                    None => break,
                    Some(sub) => {
                        let res = dispatch(insp, ledger, &sub);
                        insp.attacker_take_return(res, 0, vec![]);
                    }
                }
            }
            let ok = insp.attacker_verdict();
            insp.end_call(call.target);
            if ok {
                CallResult::Continue
            } else {
                CallResult::Revert
            }
        }
        Role::Admin | Role::Other => CallResult::Continue,
    }
}

fn withdraw_payload(amount: u64) -> Vec<u8> {
    let mut p = vec![WITHDRAW];
    p.extend_from_slice(&amount.to_le_bytes());
    p
}

/// The scripted exploit of the scenario: five chances; the first bundles a
/// donate (popped first, LIFO) under the first withdraw.
fn exploit_script(target: Address) -> Vec<Vec<CallRequest>> {
    vec![
        vec![
            req(target, 0, withdraw_payload(10000)),
            req(target, 10000, vec![DONATE]),
        ],
        vec![req(target, 0, withdraw_payload(10000))],
        vec![req(target, 0, withdraw_payload(10000))],
        vec![req(target, 0, withdraw_payload(10000))],
        vec![req(target, 0, withdraw_payload(10000))],
    ]
}

#[test]
fn permissive_defender_lets_the_exploit_through() {
    let admin = addr(0xAD);
    let target = addr(0x7A);
    let attacker_acc = addr(0xA7);
    let contracts = vec![(target, vec![0u8])];
    let attacker = AttackerFixed::new(exploit_script(target));
    let mut insp =
        GameInspector::new(admin, 10, &contracts, attacker_acc, attacker, DefenderPermissive);
    let mut ledger = Ledger { target_balance: 1_000_000, attacker_balance: 50_000, credit: 0 };
    let before = ledger.attacker_balance;
    let res = dispatch(&mut insp, &mut ledger, &req(attacker_acc, 0, vec![]));
    assert_eq!(res, CallResult::Continue);
    // One donate of 10000 bought five nested withdrawals of 10000 each.
    assert!(ledger.attacker_balance > before);
    assert_eq!(ledger.attacker_balance, before - 10000 + 50000);
    assert_eq!(ledger.target_balance, 1_000_000 + 10000 - 50000);
}

#[test]
fn denial_defender_blocks_the_exploit() {
    let admin = addr(0xAD);
    let target = addr(0x7A);
    let attacker_acc = addr(0xA7);
    let contracts = vec![(target, vec![0u8])];
    let attacker = AttackerFixed::new(exploit_script(target));
    let mut insp =
        GameInspector::new(admin, 10, &contracts, attacker_acc, attacker, DefenderDenial);
    let mut ledger = Ledger { target_balance: 1_000_000, attacker_balance: 50_000, credit: 0 };
    let before = ledger.attacker_balance;
    dispatch(&mut insp, &mut ledger, &req(attacker_acc, 0, vec![]));
    // Every attacker call against the target was reverted: nothing moved.
    assert_eq!(ledger.attacker_balance, before);
    assert_eq!(ledger.target_balance, 1_000_000);
    assert_eq!(ledger.credit, 0);
}

/// Counts the sub-calls a fully re-entrant run dispatches: every produced
/// call immediately re-enters the attacker's own code.
fn run_reentrant_turn<D: Defender, A: Attacker>(insp: &mut GameInspector<D, A>) -> usize {
    let mut n = 0;
    loop {
        match insp.attacker_turn_next() {
            None => break,
            Some(_call) => {
                n += 1;
                n += run_reentrant_turn(insp);
                insp.attacker_take_return(CallResult::Continue, 0, vec![]);
            }
        }
    }
    insp.attacker_verdict();
    n
}

#[test]
fn fixed_attacker_five_groups_budget_ten() {
    // Budget 10, five one-element groups: exactly 5 sub-calls in all, and
    // afterwards no call comes regardless of the remaining budget.
    let target = addr(0x7A);
    let groups = vec![
        vec![req(target, 0, vec![1])],
        vec![req(target, 0, vec![2])],
        vec![req(target, 0, vec![3])],
        vec![req(target, 0, vec![4])],
        vec![req(target, 0, vec![5])],
    ];
    let attacker = AttackerFixed::new(groups);
    let mut insp = GameInspector::new(
        addr(0xAD),
        10,
        &vec![(target, vec![0u8])],
        addr(0xA7),
        attacker,
        DefenderPermissive,
    );
    let n = run_reentrant_turn(&mut insp);
    assert_eq!(n, 5);
    assert_eq!(insp.limit, 5);
    // Budget remains, but the script is exhausted.
    assert!(insp.attacker_turn_next().is_none());
    assert_eq!(insp.limit, 5);
}

#[test]
fn fixed_attacker_pops_in_lifo_order() {
    let target = addr(0x7A);
    let mut attacker = AttackerFixed::new(vec![vec![
        req(target, 0, vec![10]),
        req(target, 0, vec![20]),
    ]]);
    let mut state = attacker.init(&vec![(target, vec![])]);
    let first = attacker.make_mal_call(&mut state).unwrap();
    assert_eq!(first.input, vec![20]);
    attacker.take_return(&mut state, CallResult::Continue, 0, vec![]);
    let second = attacker.make_mal_call(&mut state).unwrap();
    assert_eq!(second.input, vec![10]);
    attacker.take_return(&mut state, CallResult::Continue, 0, vec![]);
    assert!(attacker.make_mal_call(&mut state).is_none());
}

#[test]
fn budget_zero_never_consults_the_attacker() {
    let target = addr(0x7A);
    let attacker = AttackerFixed::new(vec![vec![req(target, 0, vec![1])]]);
    let mut insp = GameInspector::new(
        addr(0xAD),
        0,
        &vec![(target, vec![0u8])],
        addr(0xA7),
        attacker,
        DefenderPermissive,
    );
    assert!(insp.attacker_turn_next().is_none());
    assert_eq!(insp.limit, 0);
}

#[test]
fn budget_caps_dispatched_calls() {
    // Plenty of scripted calls, but a budget of 3: exactly 3 come out, each
    // lowering the limit by one.
    let target = addr(0x7A);
    let groups = vec![vec![
        req(target, 0, vec![1]),
        req(target, 0, vec![2]),
        req(target, 0, vec![3]),
        req(target, 0, vec![4]),
        req(target, 0, vec![5]),
    ]];
    let attacker = AttackerFixed::new(groups);
    let mut insp = GameInspector::new(
        addr(0xAD),
        3,
        &vec![(target, vec![0u8])],
        addr(0xA7),
        attacker,
        DefenderPermissive,
    );
    let mut n = 0;
    let mut limits = vec![];
    loop {
        match insp.attacker_turn_next() {
            None => break,
            Some(_c) => {
                n += 1;
                limits.push(insp.limit);
                insp.attacker_take_return(CallResult::Continue, 0, vec![]);
            }
        }
    }
    assert_eq!(n, 3);
    assert_eq!(limits, vec![2, 1, 0]);
}

#[test]
fn classify_orders_roles() {
    let admin = addr(1);
    let target = addr(2);
    let attacker_acc = addr(3);
    let attacker = AttackerFixed::new(vec![]);
    let insp = GameInspector::new(
        admin,
        1,
        &vec![(target, vec![0u8]), (admin, vec![0u8])],
        attacker_acc,
        attacker,
        DefenderPermissive,
    );
    // The administrator outranks a protected listing of the same address.
    assert_eq!(insp.classify(admin), Role::Admin);
    assert_eq!(insp.classify(target), Role::Protected);
    assert_eq!(insp.classify(attacker_acc), Role::AttackerOwn);
    assert_eq!(insp.classify(addr(99)), Role::Other);
}

#[test]
fn defender_stack_depth_returns_after_matched_calls() {
    let target = addr(0x7A);
    let attacker = AttackerFixed::new(vec![]);
    let mut insp = GameInspector::new(
        addr(0xAD),
        1,
        &vec![(target, vec![0u8])],
        addr(0xA7),
        attacker,
        DefenderPermissive,
    );
    let d0 = insp.defstate.len();
    assert_eq!(d0, 1);
    // Nested begins and ends, properly matched.
    let call = req(target, 0, vec![]);
    insp.begin_protected(&call);
    insp.begin_protected(&call);
    assert_eq!(insp.defstate.len(), 3);
    insp.end_call(target);
    insp.begin_protected(&call);
    insp.end_call(target);
    insp.end_call(target);
    assert_eq!(insp.defstate.len(), d0);
    // An end for an unprotected address pops nothing.
    insp.end_call(addr(0xA7));
    assert_eq!(insp.defstate.len(), d0);
}

#[test]
fn baseline_defenders_verdicts() {
    let call = req(addr(5), 0, vec![]);
    let (_s, ok) = DefenderPermissive.check(&(), &call);
    assert!(ok);
    let (_s, ok) = DefenderDenial.check(&(), &call);
    assert!(!ok);
}
