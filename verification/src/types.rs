//! Plain data carried between the game engine and the external executor:
//! account addresses, 256-bit call values, call requests and call outcomes.

use vstd::prelude::*;

verus! {

/// A 160-bit account or contract identifier, split into a 32-bit high part
/// and a 128-bit low part.
#[derive(Clone, Copy, Debug, PartialEq, Eq, Structural, Hash)]
pub struct Address {
    pub hi: u32,
    pub lo: u128,
}

impl Address {
    /// Builds an address whose high 32 bits are zero; convenient for small
    /// test identities.
    pub fn from_u128(lo: u128) -> (r: Address)
        ensures
            r.hi == 0,
            r.lo == lo,
    {
        Address { hi: 0, lo }
    }
}

/// An unsigned 256-bit call value, most significant limb first.
#[derive(Clone, Copy, Debug, PartialEq, Eq, Structural)]
pub struct Uint256 {
    pub w3: u64,
    pub w2: u64,
    pub w1: u64,
    pub w0: u64,
}

/// The big-endian value of the eight bytes of `s` starting at `i`.
pub open spec fn be_u64_at(s: Seq<u8>, i: int) -> int {
    s[i] * 0x100_0000_0000_0000 + s[i + 1] * 0x1_0000_0000_0000 + s[i + 2] * 0x100_0000_0000
        + s[i + 3] * 0x1_0000_0000 + s[i + 4] * 0x100_0000 + s[i + 5] * 0x1_0000 + s[i + 6] * 0x100
        + s[i + 7]
}

/// The number a `Uint256` stands for.
pub open spec fn u256_value(v: Uint256) -> int {
    v.w3 * 0x1_0000_0000_0000_0000_0000_0000_0000_0000_0000_0000_0000_0000
        + v.w2 * 0x1_0000_0000_0000_0000_0000_0000_0000_0000 + v.w1 * 0x1_0000_0000_0000_0000
        + v.w0
}

/// The big-endian value of a 32-byte sequence.
pub open spec fn be_u256_value(s: Seq<u8>) -> int {
    be_u64_at(s, 0) * 0x1_0000_0000_0000_0000_0000_0000_0000_0000_0000_0000_0000_0000
        + be_u64_at(s, 8) * 0x1_0000_0000_0000_0000_0000_0000_0000_0000 + be_u64_at(s, 16)
        * 0x1_0000_0000_0000_0000 + be_u64_at(s, 24)
}

fn be_u64_from(bytes: &Vec<u8>, i: usize) -> (r: u64)
    requires
        i + 8 <= bytes.len(),
    ensures
        r == be_u64_at(bytes@, i as int),
{
    let b0 = bytes[i] as u64;
    let b1 = bytes[i + 1] as u64;
    let b2 = bytes[i + 2] as u64;
    let b3 = bytes[i + 3] as u64;
    let b4 = bytes[i + 4] as u64;
    let b5 = bytes[i + 5] as u64;
    let b6 = bytes[i + 6] as u64;
    let b7 = bytes[i + 7] as u64;
    b0 * 0x100_0000_0000_0000 + b1 * 0x1_0000_0000_0000 + b2 * 0x100_0000_0000 + b3 * 0x1_0000_0000
        + b4 * 0x100_0000 + b5 * 0x1_0000 + b6 * 0x100 + b7
}

impl Uint256 {
    /// The zero value.
    pub fn zero() -> (r: Uint256)
        ensures
            u256_value(r) == 0,
    {
        Uint256 { w3: 0, w2: 0, w1: 0, w0: 0 }
    }

    /// Embeds a 64-bit number.
    pub fn from_u64(v: u64) -> (r: Uint256)
        ensures
            u256_value(r) == v,
    {
        Uint256 { w3: 0, w2: 0, w1: 0, w0: v }
    }

    /// Reads a 256-bit value from exactly 32 big-endian bytes.
    pub fn from_be_bytes(bytes: &Vec<u8>) -> (r: Uint256)
        requires
            bytes@.len() == 32,
        ensures
            u256_value(r) == be_u256_value(bytes@),
            r.w3 == be_u64_at(bytes@, 0),
            r.w2 == be_u64_at(bytes@, 8),
            r.w1 == be_u64_at(bytes@, 16),
            r.w0 == be_u64_at(bytes@, 24),
    {
        let w3 = be_u64_from(bytes, 0);
        let w2 = be_u64_from(bytes, 8);
        let w1 = be_u64_from(bytes, 16);
        let w0 = be_u64_from(bytes, 24);
        Uint256 { w3, w2, w1, w0 }
    }
}

/// How a call ended: it ran (or may run) to completion, it was reverted, or
/// it halted in some other way.
#[derive(Clone, Copy, Debug, PartialEq, Eq, Structural)]
pub enum CallResult {
    Continue,
    Revert,
    OtherHalt,
}

/// One outgoing call an attacker issues, or one incoming call the executor
/// delivers to the game controller.
#[derive(Debug)]
pub struct CallRequest {
    pub target: Address,
    pub value: Uint256,
    pub input: Vec<u8>,
}

/// Copies a byte string.
pub fn clone_bytes(v: &Vec<u8>) -> (r: Vec<u8>)
    ensures
        r@ == v@,
{
    let r = v.clone();
    proof {
        assert forall|i: int| 0 <= i < v@.len() implies r@[i] == v@[i] by {
            assert(cloned::<u8>(v@[i], r@[i]));
        }
        assert(r@ =~= v@);
    }
    r
}

impl Clone for CallRequest {
    /// A clone carries the same target, value and input bytes.
    fn clone(&self) -> (r: CallRequest)
        ensures
            r.target == self.target,
            r.value == self.value,
            r.input@ == self.input@,
    {
        CallRequest { target: self.target, value: self.value, input: clone_bytes(&self.input) }
    }
}

/// What the executor reports for a completed call.
#[derive(Debug)]
pub struct CallOutcome {
    pub result: CallResult,
    pub gas_remaining: u64,
    pub output: Vec<u8>,
}

} // verus!
