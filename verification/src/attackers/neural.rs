//! The register-script virtual machine and the attacker strategy driven by
//! it. A compact program over a fixed-size file of 32-bit registers decides
//! whether to act, which contract to call, how much value to send and what
//! payload to attach, so the strategy can be produced by search or learning
//! rather than written by hand.

use vstd::prelude::*;

use crate::bitops::is_power_of_two;
use crate::bitops::lemma_and_le_mask;
use crate::bitops::lemma_or_zero_u32;
use crate::bitops::word_bit;
use crate::environment::interfaces::Attacker;
use crate::types::Address;
use crate::types::CallRequest;
use crate::types::CallResult;
use crate::types::Uint256;

verus! {

/// `a` and `b` share no set bit in any word.
pub open spec fn no_shared_bit(a: Seq<u32>, b: Seq<u32>) -> bool {
    forall|i: int| 0 <= i < a.len() ==> #[trigger] (a[i] & b[i]) == 0
}

/// Projects a register file to one boolean: true exactly when `a` and `b`
/// share no set bit in any word.
pub fn cast_bool(a: &Vec<u32>, b: &Vec<u32>) -> (r: bool)
    requires
        a.len() == b.len(),
    ensures
        r == no_shared_bit(a@, b@),
{
    let mut c: u32 = 0;
    let mut i: usize = 0;
    while i < a.len()
        invariant
            a.len() == b.len(),
            i <= a.len(),
            (c == 0) <==> (forall|j: int| 0 <= j < i ==> #[trigger] (a@[j] & b@[j]) == 0),
        decreases a.len() - i,
    {
        let w = a[i] & b[i];
        proof {
            lemma_or_zero_u32(c, w);
        }
        c = c | w;
        i = i + 1;
    }
    c == 0
}

/// The bits of `a`, in order, among the first `n` bit positions, that
/// survive the mask `b`: a bit of `a` survives exactly where the same bit of
/// `b` is set.
pub open spec fn masked_bits(a: Seq<u32>, b: Seq<u32>, n: int) -> Seq<bool>
    decreases n,
{
    if n <= 0 {
        Seq::empty()
    } else if word_bit(b, n - 1) {
        masked_bits(a, b, n - 1).push(word_bit(a, n - 1))
    } else {
        masked_bits(a, b, n - 1)
    }
}

/// Every bit of `a` that survives the mask `b`, in order.
pub open spec fn selected_bits(a: Seq<u32>, b: Seq<u32>) -> Seq<bool> {
    masked_bits(a, b, 32 * (a.len() as int))
}

/// The byte whose bits are `sel[base]` to `sel[base + 7]`, least significant
/// first; a missing bit stays zero.
#[verifier::opaque]
pub open spec fn packed_at(sel: Seq<bool>, base: int) -> u8 {
    ((if base + 0 < sel.len() && sel[base + 0] { 1int } else { 0 }) + (if base + 1 < sel.len()
        && sel[base + 1] { 2int } else { 0 }) + (if base + 2 < sel.len() && sel[base + 2] {
        4int
    } else {
        0
    }) + (if base + 3 < sel.len() && sel[base + 3] { 8int } else { 0 }) + (if base + 4 < sel.len()
        && sel[base + 4] { 16int } else { 0 }) + (if base + 5 < sel.len() && sel[base + 5] {
        32int
    } else {
        0
    }) + (if base + 6 < sel.len() && sel[base + 6] { 64int } else { 0 }) + (if base + 7 < sel.len()
        && sel[base + 7] { 128int } else { 0 })) as u8
}

/// Byte `i` of the packed form of a bit sequence: bits `8i` to `8i + 7`,
/// least significant first; a missing bit stays zero.
pub open spec fn packed_byte(sel: Seq<bool>, i: int) -> u8 {
    packed_at(sel, 8 * i)
}

/// Packs eight bits starting at `base` into one byte.
fn pack_eight(sel: &Vec<bool>, base: usize) -> (r: u8)
    requires
        base <= usize::MAX - 8,
    ensures
        r == packed_at(sel@, base as int),
{
    let mut byte: u8 = 0;
    if base + 0 < sel.len() && sel[base + 0] {
        byte = byte + 1;
    }
    if base + 1 < sel.len() && sel[base + 1] {
        byte = byte + 2;
    }
    if base + 2 < sel.len() && sel[base + 2] {
        byte = byte + 4;
    }
    if base + 3 < sel.len() && sel[base + 3] {
        byte = byte + 8;
    }
    if base + 4 < sel.len() && sel[base + 4] {
        byte = byte + 16;
    }
    if base + 5 < sel.len() && sel[base + 5] {
        byte = byte + 32;
    }
    if base + 6 < sel.len() && sel[base + 6] {
        byte = byte + 64;
    }
    if base + 7 < sel.len() && sel[base + 7] {
        byte = byte + 128;
    }
    proof {
        reveal(packed_at);
    }
    byte
}

/// Two bit sequences that agree where both are defined pack to the same
/// byte, provided the eight bits read either lie inside the shorter one or
/// the sequences are the same.
proof fn lemma_packed_at_agree(sel: Seq<bool>, full: Seq<bool>, base: int)
    requires
        0 <= base,
        sel.len() <= full.len(),
        forall|t: int| 0 <= t < sel.len() ==> full[t] == sel[t],
        sel == full || base + 8 <= sel.len(),
    ensures
        packed_at(sel, base) == packed_at(full, base),
{
    reveal(packed_at);
}

/// The `m` bytes a byte cast returns: the surviving bits of `a` under the
/// mask `b`, packed least-significant-bit first; bytes past the surviving
/// bits stay zero.
pub open spec fn cast_byte_spec(m: int, a: Seq<u32>, b: Seq<u32>) -> Seq<u8> {
    Seq::new(m as nat, |i: int| packed_byte(selected_bits(a, b), i))
}

/// Never more bits survive a mask than positions were scanned.
pub proof fn lemma_masked_bits_len(a: Seq<u32>, b: Seq<u32>, n: int)
    requires
        0 <= n,
    ensures
        masked_bits(a, b, n).len() <= n,
    decreases n,
{
    if n > 0 {
        lemma_masked_bits_len(a, b, n - 1);
    }
}

/// Scanning further bit positions only appends surviving bits: the survivors
/// of a shorter scan are a prefix of those of a longer one.
pub proof fn lemma_masked_bits_prefix(a: Seq<u32>, b: Seq<u32>, n1: int, n2: int)
    requires
        0 <= n1 <= n2,
    ensures
        masked_bits(a, b, n1).len() <= masked_bits(a, b, n2).len(),
        forall|i: int|
            0 <= i < masked_bits(a, b, n1).len() ==> masked_bits(a, b, n2)[i] == masked_bits(
                a,
                b,
                n1,
            )[i],
    decreases n2,
{
    if n2 > n1 {
        lemma_masked_bits_prefix(a, b, n1, n2 - 1);
    }
}

/// Packs the bits of `a` that survive the mask `b` into `m` bytes, least
/// significant bit first within each byte; packing stops when the survivors
/// are exhausted and the remaining bytes stay zero.
#[verifier::rlimit(60)]
pub fn cast_byte(m: usize, a: &Vec<u32>, b: &Vec<u32>) -> (r: Vec<u8>)
    requires
        a.len() == b.len(),
        m <= usize::MAX / 8,
        a.len() <= usize::MAX / 32,
    ensures
        r@ == cast_byte_spec(m as int, a@, b@),
        r@.len() == m,
{
    let total: usize = a.len() * 32;
    let cap: usize = m * 8;
    let mut sel: Vec<bool> = Vec::new();
    let mut k: usize = 0;
    while k < total && sel.len() < cap
        invariant
            total == 32 * a@.len(),
            cap == 8 * m,
            a@.len() == b@.len(),
            k <= total,
            sel@ =~= masked_bits(a@, b@, k as int),
            sel@.len() <= cap,
        decreases total - k,
    {
        let wb = b[k / 32];
        let bit_b = (wb >> ((k % 32) as u32)) & 1 == 1;
        if bit_b {
            let wa = a[k / 32];
            let bit_a = (wa >> ((k % 32) as u32)) & 1 == 1;
            sel.push(bit_a);
        }
        k = k + 1;
        proof {
            assert(bit_b == word_bit(b@, k - 1));
        }
    }
    proof {
        lemma_masked_bits_prefix(a@, b@, k as int, total as int);
        lemma_masked_bits_len(a@, b@, total as int);
    }
    let ghost full = selected_bits(a@, b@);
    proof {
        assert(sel@.len() <= full.len());
        assert(forall|i: int| 0 <= i < sel@.len() ==> full[i] == sel@[i]);
        assert(k == total || sel@.len() == cap);
        if k == total {
            assert(sel@ =~= full);
        }
    }
    let mut out: Vec<u8> = Vec::new();
    let mut i: usize = 0;
    while i < m
        invariant
            cap == 8 * m,
            i <= m,
            out@.len() == i,
            sel@.len() <= cap,
            sel@.len() <= full.len(),
            forall|t: int| 0 <= t < sel@.len() ==> full[t] == sel@[t],
            sel@ == full || sel@.len() == cap,
            forall|j: int| 0 <= j < i ==> out@[j] == packed_byte(full, j),
        decreases m - i,
    {
        let base: usize = i * 8;
        let byte = pack_eight(&sel, base);
        proof {
            lemma_packed_at_agree(sel@, full, base as int);
        }
        out.push(byte);
        i = i + 1;
    }
    proof {
        assert(out@ =~= cast_byte_spec(m as int, a@, b@));
    }
    out
}

/// Law: the boolean cast accepts every register file against an all-zero
/// mask, since no word can share a set bit with zero.
pub proof fn lemma_cast_bool_zero_mask(a: Seq<u32>, b: Seq<u32>)
    requires
        a.len() == b.len(),
        forall|i: int| 0 <= i < b.len() ==> b[i] == 0u32,
    ensures
        no_shared_bit(a, b),
{
    assert forall|i: int| 0 <= i < a.len() implies #[trigger] (a[i] & b[i]) == 0 by {
        crate::bitops::lemma_and_zero_u32(a[i]);
    }
}

/// Under a mask with every bit set, every scanned bit survives, in place.
pub proof fn lemma_masked_bits_full(a: Seq<u32>, b: Seq<u32>, n: int)
    requires
        a.len() == b.len(),
        forall|i: int| 0 <= i < b.len() ==> b[i] == 0xffff_ffffu32,
        0 <= n <= 32 * a.len(),
    ensures
        masked_bits(a, b, n).len() == n,
        forall|k: int| 0 <= k < n ==> masked_bits(a, b, n)[k] == word_bit(a, k),
    decreases n,
{
    if n > 0 {
        lemma_masked_bits_full(a, b, n - 1);
        assert(0 <= (n - 1) / 32 < b.len());
        crate::bitops::lemma_full_word_bit(b[(n - 1) / 32], (((n - 1) % 32) as u32));
        assert(word_bit(b, n - 1));
    }
}

/// Law: with every mask bit set, a byte cast packs exactly the bits of `a`,
/// in order, so `m` bytes carry the first `8 m` bits of `a` verbatim, up to
/// the bits available.
pub proof fn lemma_cast_byte_full_mask(a: Seq<u32>, b: Seq<u32>)
    requires
        a.len() == b.len(),
        forall|i: int| 0 <= i < b.len() ==> b[i] == 0xffff_ffffu32,
    ensures
        selected_bits(a, b).len() == 32 * a.len(),
        forall|k: int| 0 <= k < 32 * a.len() ==> selected_bits(a, b)[k] == word_bit(a, k),
{
    lemma_masked_bits_full(a, b, 32 * (a.len() as int));
}

/// The transient machine of the register-script VM: the register file and
/// the two scratch registers.
pub struct RegVm {
    pub regs: Seq<u32>,
    pub x: u32,
    pub y: u32,
}

/// Word `i` of a script, or zero where the script is too short; the first
/// two words seed the scratch registers.
pub open spec fn seed_word(script: Seq<u32>, i: int) -> u32 {
    if 0 <= i < script.len() {
        script[i]
    } else {
        0
    }
}

/// One opcode of the register-script VM, selected by the word's value modulo
/// nineteen. Wraparound arithmetic; a zero divisor, the unused opcode slot
/// and a byte fetch from an empty buffer leave the machine unchanged, so a
/// step is total.
pub open spec fn reg_step(m: RegVm, instr: u32, bytes: Seq<u8>, mask: usize) -> RegVm {
    let op = instr % 19;
    if op == 0 {
        RegVm { y: vstd::wrapping::u32_specs::wrapping_add(m.y, m.x), ..m }
    } else if op == 1 {
        RegVm { y: vstd::wrapping::u32_specs::wrapping_sub(m.y, m.x), ..m }
    } else if op == 2 {
        RegVm { y: vstd::wrapping::u32_specs::wrapping_mul(m.y, m.x), ..m }
    } else if op == 3 {
        if m.x == 0 {
            m
        } else {
            RegVm { y: m.y / m.x, ..m }
        }
    } else if op == 4 {
        if m.x == 0 {
            m
        } else {
            RegVm { y: m.y % m.x, ..m }
        }
    } else if op == 6 {
        RegVm { y: m.y << (m.x % 32), ..m }
    } else if op == 7 {
        RegVm { y: m.y >> (m.x % 32), ..m }
    } else if op == 8 {
        RegVm { y: m.y & m.x, ..m }
    } else if op == 9 {
        RegVm { y: m.y | m.x, ..m }
    } else if op == 10 {
        RegVm { y: m.y ^ m.x, ..m }
    } else if op == 11 {
        RegVm { y: !m.y, ..m }
    } else if op == 12 {
        RegVm { x: m.y, y: m.x, ..m }
    } else if op == 13 {
        RegVm { regs: m.regs.update(((m.x as usize) & mask) as int, m.y), ..m }
    } else if op == 14 {
        RegVm { y: m.regs[((m.y as usize) & mask) as int], ..m }
    } else if op == 15 {
        if bytes.len() == 0 {
            m
        } else {
            RegVm { y: bytes[(m.y as int) % (bytes.len() as int)] as u32, ..m }
        }
    } else if op == 16 {
        if bytes.len() == 0 {
            m
        } else {
            RegVm { y: (bytes[(m.y as int) % (bytes.len() as int)] as u32 * 256) as u32, ..m }
        }
    } else if op == 17 {
        if bytes.len() == 0 {
            m
        } else {
            RegVm { y: (bytes[(m.y as int) % (bytes.len() as int)] as u32 * 65536) as u32, ..m }
        }
    } else if op == 18 {
        if bytes.len() == 0 {
            m
        } else {
            RegVm { y: (bytes[(m.y as int) % (bytes.len() as int)] as u32 * 16777216) as u32, ..m }
        }
    } else {
        m
    }
}

/// The machine after consuming the opcodes among the first `n` script words;
/// the first two words only seed the scratch registers.
pub open spec fn vm_after(
    regs0: Seq<u32>,
    bytes: Seq<u8>,
    script: Seq<u32>,
    n: int,
    mask: usize,
) -> RegVm
    decreases n,
{
    if n <= 2 {
        RegVm { regs: regs0, x: seed_word(script, 0), y: seed_word(script, 1) }
    } else {
        reg_step(vm_after(regs0, bytes, script, n - 1, mask), script[n - 1], bytes, mask)
    }
}

/// The register file after one full run of a script. The store and load
/// opcodes address the file through the single-bit mask `len / 2`, which is
/// one bit of the length alone rather than the full `len - 1` range; this is
/// kept exactly as the strategy language defines it, so only two slots of
/// the file are ever addressed.
pub open spec fn apply_spec(regs0: Seq<u32>, bytes: Seq<u8>, script: Seq<u32>) -> Seq<u32> {
    vm_after(regs0, bytes, script, script.len() as int, (regs0.len() / 2) as usize).regs
}

/// A run of the machine never changes the size of the register file.
pub proof fn lemma_vm_after_len(
    regs0: Seq<u32>,
    bytes: Seq<u8>,
    script: Seq<u32>,
    n: int,
    mask: usize,
)
    requires
        mask < regs0.len(),
    ensures
        vm_after(regs0, bytes, script, n, mask).regs.len() == regs0.len(),
    decreases n,
{
    if n > 2 {
        lemma_vm_after_len(regs0, bytes, script, n - 1, mask);
        let prev = vm_after(regs0, bytes, script, n - 1, mask);
        lemma_and_le_mask(prev.x as usize, mask);
    }
}

/// Runs every opcode of `script` in order over the register file `state`,
/// conditioned on the external buffer `bytes`. The scratch registers are
/// seeded from the first two script words and are not preserved across runs.
pub fn apply(state: &mut Vec<u32>, bytes: &Vec<u8>, script: &Vec<u32>)
    requires
        is_power_of_two(old(state).len() as int),
        old(state).len() >= 2,
    ensures
        final(state)@ == apply_spec(old(state)@, bytes@, script@),
        final(state)@.len() == old(state)@.len(),
{
    let ghost regs0 = state@;
    let mask: usize = state.len() / 2;
    let mut x: u32 = if script.len() > 0 {
        script[0]
    } else {
        0
    };
    let mut y: u32 = if script.len() > 1 {
        script[1]
    } else {
        0
    };
    let mut i: usize = 2;
    proof {
        assert(vm_after(regs0, bytes@, script@, 2, mask) == RegVm {
            regs: regs0,
            x: seed_word(script@, 0),
            y: seed_word(script@, 1),
        });
    }
    while i < script.len()
        invariant
            2 <= i,
            i <= script.len() || i == 2,
            mask == regs0.len() / 2,
            regs0.len() >= 2,
            state@.len() == regs0.len(),
            (RegVm { regs: state@, x, y }) == vm_after(regs0, bytes@, script@, i as int, mask),
        decreases script.len() - i,
    {
        let instr = script[i];
        let op = instr % 19;
        if op == 0 {
            y = y.wrapping_add(x);
        } else if op == 1 {
            y = y.wrapping_sub(x);
        } else if op == 2 {
            y = y.wrapping_mul(x);
        } else if op == 3 {
            if x != 0 {
                y = y / x;
            }
        } else if op == 4 {
            if x != 0 {
                y = y % x;
            }
        } else if op == 6 {
            y = y << (x % 32);
        } else if op == 7 {
            y = y >> (x % 32);
        } else if op == 8 {
            y = y & x;
        } else if op == 9 {
            y = y | x;
        } else if op == 10 {
            y = y ^ x;
        } else if op == 11 {
            y = !y;
        } else if op == 12 {
            let t = x;
            x = y;
            y = t;
        } else if op == 13 {
            let xu = x as usize;
            let slot = xu & mask;
            proof {
                lemma_and_le_mask(xu, mask);
            }
            state.set(slot, y);
        } else if op == 14 {
            let yu = y as usize;
            let slot = yu & mask;
            proof {
                lemma_and_le_mask(yu, mask);
            }
            y = state[slot];
        } else if op == 15 {
            if bytes.len() > 0 {
                let idx = (y as usize) % bytes.len();
                y = bytes[idx] as u32;
            }
        } else if op == 16 {
            if bytes.len() > 0 {
                let idx = (y as usize) % bytes.len();
                y = (bytes[idx] as u32) * 256;
            }
        } else if op == 17 {
            if bytes.len() > 0 {
                let idx = (y as usize) % bytes.len();
                y = (bytes[idx] as u32) * 65536;
            }
        } else if op == 18 {
            if bytes.len() > 0 {
                let idx = (y as usize) % bytes.len();
                y = (bytes[idx] as u32) * 16777216;
            }
        }
        i = i + 1;
        proof {
            assert(vm_after(regs0, bytes@, script@, i as int, mask) == reg_step(
                vm_after(regs0, bytes@, script@, i - 1, mask),
                script@[i - 1],
                bytes@,
                mask,
            ));
        }
    }
    proof {
        if script@.len() <= 2 {
            assert(vm_after(regs0, bytes@, script@, script@.len() as int, mask) == vm_after(
                regs0,
                bytes@,
                script@,
                2,
                mask,
            ));
        }
    }
}

/// Copies a register file.
fn clone_regs(v: &Vec<u32>) -> (r: Vec<u32>)
    ensures
        r@ == v@,
{
    let r = v.clone();
    proof {
        assert forall|i: int| 0 <= i < v@.len() implies r@[i] == v@[i] by {
            assert(cloned::<u32>(v@[i], r@[i]));
        }
        assert(r@ =~= v@);
    }
    r
}

/// The attacker strategy driven by the register-script VM. Its scripts
/// advance the register file; its projections cast the file into the skip
/// decision, the target selector, the call value, the payload and the final
/// verdict. All projections have the register file's length, a power of two.
pub struct AttackerNeural {
    /// Advances the state once per decision turn.
    pub script_make_call: Vec<u32>,
    /// Derives the local state the payload is extracted from.
    pub script_proj_data: Vec<u32>,
    /// Mask for the skip decision.
    pub proj_skip_call: Vec<u32>,
    /// Mask for the 32-byte call value.
    pub proj_value: Vec<u32>,
    /// Mask for the 2-byte target selector.
    pub proj_contract: Vec<u32>,
    /// The targets learned at `init`.
    pub contracts: Vec<Address>,
    /// Folds a call's output back into the state.
    pub script_take_return: Vec<u32>,
    /// Advances the state before the final verdict.
    pub script_check: Vec<u32>,
    /// Mask for the final verdict.
    pub proj_check: Vec<u32>,
    /// The register file's length.
    pub state_len: usize,
}

impl Attacker for AttackerNeural {
    type State = Vec<u32>;

    open spec fn wf(&self) -> bool {
        &&& is_power_of_two(self.state_len as int)
        &&& self.state_len >= 2
        &&& self.state_len <= usize::MAX / 32
        &&& self.proj_skip_call@.len() == self.state_len
        &&& self.proj_value@.len() == self.state_len
        &&& self.proj_contract@.len() == self.state_len
        &&& self.proj_check@.len() == self.state_len
    }

    open spec fn state_wf(&self, s: Vec<u32>) -> bool {
        s@.len() == self.state_len
    }

    /// `init` records the target addresses and hands out a zeroed register
    /// file; everything else about the strategy stays as built.
    open spec fn init_rel(
        &self,
        post: Self,
        contracts: Seq<(Address, Vec<u8>)>,
        s: Vec<u32>,
    ) -> bool {
        &&& post == (AttackerNeural { contracts: post.contracts, ..*self })
        &&& post.contracts@.len() == contracts.len()
        &&& (forall|i: int| 0 <= i < contracts.len() ==> post.contracts@[i] == contracts[i].0)
        &&& s@.len() == self.state_len
        &&& (forall|i: int| 0 <= i < s@.len() ==> s@[i] == 0u32)
    }

    /// One decision turn: the skip bit is cast from the state as it stands,
    /// the make-call script then advances the state, and either no call is
    /// produced (skip, or no known targets) or target, value and payload are
    /// cast out of the advanced state; the payload comes from a local copy
    /// advanced once more, masked by the persisted state itself.
    open spec fn make_rel(&self, pre: Vec<u32>, post: Vec<u32>, r: Option<CallRequest>) -> bool {
        let skip = no_shared_bit(pre@, self.proj_skip_call@);
        let s1 = apply_spec(pre@, Seq::<u8>::empty(), self.script_make_call@);
        &&& post@ == s1
        &&& if skip || self.contracts@.len() == 0 {
            r is None
        } else {
            let cb = cast_byte_spec(2, s1, self.proj_contract@);
            let sel = (cb[0] as int) * 256 + (cb[1] as int);
            let vb = cast_byte_spec(32, s1, self.proj_value@);
            let local = apply_spec(s1, Seq::<u8>::empty(), self.script_proj_data@);
            &&& r is Some
            &&& r.unwrap().target == self.contracts@[sel % (self.contracts@.len() as int)]
            &&& r.unwrap().value == (crate::types::Uint256 {
                w3: crate::types::be_u64_at(vb, 0) as u64,
                w2: crate::types::be_u64_at(vb, 8) as u64,
                w1: crate::types::be_u64_at(vb, 16) as u64,
                w0: crate::types::be_u64_at(vb, 24) as u64,
            })
            &&& r.unwrap().input@ == cast_byte_spec(4 * (self.state_len as int), local, s1)
        }
    }

    /// A consumed return folds the call's output bytes into the state.
    open spec fn return_rel(
        &self,
        pre: Vec<u32>,
        ret: CallResult,
        gas: u64,
        out: Seq<u8>,
        post: Vec<u32>,
    ) -> bool {
        post@ == apply_spec(pre@, out, self.script_take_return@)
    }

    /// Ends a turn: `script_check` runs once over the state, then `ok` is
    /// the boolean cast of the new state against `proj_check`.
    open spec fn check_rel(&self, pre: Vec<u32>, post: Vec<u32>, ok: bool) -> bool {
        &&& post@ == apply_spec(pre@, Seq::<u8>::empty(), self.script_check@)
        &&& ok == no_shared_bit(post@, self.proj_check@)
    }

    fn init(&mut self, contracts: &Vec<(Address, Vec<u8>)>) -> (s: Vec<u32>) {
        let mut addrs: Vec<Address> = Vec::new();
        let mut i: usize = 0;
        while i < contracts.len()
            invariant
                i <= contracts@.len(),
                addrs@.len() == i,
                forall|j: int| 0 <= j < i ==> addrs@[j] == contracts@[j].0,
            decreases contracts@.len() - i,
        {
            addrs.push(contracts[i].0);
            i = i + 1;
        }
        self.contracts = addrs;
        let mut s: Vec<u32> = Vec::new();
        while s.len() < self.state_len
            invariant
                s@.len() <= self.state_len,
                forall|j: int| 0 <= j < s@.len() ==> s@[j] == 0u32,
            decreases self.state_len - s@.len(),
        {
            s.push(0);
        }
        s
    }

    fn make_mal_call(&self, state: &mut Vec<u32>) -> (r: Option<CallRequest>) {
        let empty: Vec<u8> = Vec::new();
        let skip = cast_bool(state, &self.proj_skip_call);
        apply(state, &empty, &self.script_make_call);
        if skip || self.contracts.len() == 0 {
            None
        } else {
            let cb = cast_byte(2, state, &self.proj_contract);
            let sel = (cb[0] as usize) * 256 + (cb[1] as usize);
            let target = self.contracts[sel % self.contracts.len()];
            let vb = cast_byte(32, state, &self.proj_value);
            let value = Uint256::from_be_bytes(&vb);
            let mut lstate = clone_regs(state);
            apply(&mut lstate, &empty, &self.script_proj_data);
            let payload = cast_byte(4 * self.state_len, &lstate, state);
            Some(CallRequest { target, value, input: payload })
        }
    }

    fn take_return(&self, state: &mut Vec<u32>, ret: CallResult, gas: u64, out: Vec<u8>) {
        apply(state, &out, &self.script_take_return);
    }

    fn check(&self, state: &mut Vec<u32>) -> (ok: bool) {
        let empty: Vec<u8> = Vec::new();
        apply(state, &empty, &self.script_check);
        cast_bool(state, &self.proj_check)
    }
}

} // verus!
