//! Opcode semantics on resolved operand values.
//!
//! Every two-operand opcode is a function of the operand values and the
//! overflow register: it either writes a new word into the "b" location
//! (possibly updating the overflow register), tests a skip condition, does
//! nothing, or is unimplemented.  All arithmetic is unsigned 16-bit with
//! the wider part of a result captured in the overflow register.

use vstd::prelude::*;
use vstd::arithmetic::power2::{
    pow2, lemma_pow2_adds, lemma_pow2_pos, lemma_pow2_strictly_increases, lemma_pow2_unfold,
    lemma2_to64,
};
use vstd::arithmetic::div_mod::{
    lemma_basic_div, lemma_div_multiples_vanish, lemma_div_nonincreasing,
    lemma_mod_multiples_basic,
};

verus! {

pub const OP_NOP: u16 = 0x00;

pub const OP_SET: u16 = 0x01;

pub const OP_ADD: u16 = 0x02;

pub const OP_SUB: u16 = 0x03;

pub const OP_MUL: u16 = 0x04;

pub const OP_DIV: u16 = 0x06;

pub const OP_MOD: u16 = 0x08;

pub const OP_AND: u16 = 0x0a;

pub const OP_BOR: u16 = 0x0b;

pub const OP_XOR: u16 = 0x0c;

pub const OP_SHR: u16 = 0x0d;

pub const OP_SHL: u16 = 0x0f;

pub const OP_IFB: u16 = 0x10;

pub const OP_IFC: u16 = 0x11;

pub const OP_IFE: u16 = 0x12;

pub const OP_IFN: u16 = 0x13;

pub const OP_IFG: u16 = 0x14;

pub const OP_IFL: u16 = 0x16;

/// What one opcode does with its two operand values.
#[derive(Clone, Copy, PartialEq, Eq, Structural, Debug)]
pub enum OpEffect {
    /// No effect at all.
    Nop,
    /// Write `b` through the "b" operand and set the overflow register to
    /// `ex` (opcodes that leave it alone pass the old value through).
    Write { b: u16, ex: u16 },
    /// A conditional-skip opcode: when `cond` is false the following
    /// instruction is skipped.
    SkipTest { cond: bool },
    /// No semantics assigned to this opcode value.
    Unknown,
}

/// Subtraction modulo the word range.
pub open spec fn wrap_sub(b: u16, a: u16) -> u16 {
    if a <= b {
        (b - a) as u16
    } else {
        (b - a + 0x10000) as u16
    }
}

/// The conditional-skip opcodes.
pub open spec fn is_skip_op(op: u16) -> bool {
    op == OP_IFB || op == OP_IFC || op == OP_IFE || op == OP_IFN || op == OP_IFG || op == OP_IFL
}

/// The condition a skip opcode tests, over the operand values.
pub open spec fn skip_cond(op: u16, bv: u16, av: u16) -> bool {
    if op == OP_IFB {
        (bv & av) != 0
    } else if op == OP_IFC {
        (bv & av) == 0
    } else if op == OP_IFE {
        bv == av
    } else if op == OP_IFN {
        bv != av
    } else if op == OP_IFG {
        bv > av
    } else {
        bv < av
    }
}

/// The effect of opcode `op` on operand values `bv` (destination) and `av`
/// (source), with the overflow register currently holding `ex`.
///
/// Division and modulo by zero are defined, not faults: they yield zero
/// (division also clears the overflow register).  Shifts treat the shift
/// count as unbounded; every bit shifted past the word is captured in (or
/// dropped past) the overflow register.
pub open spec fn op_effect(op: u16, bv: u16, av: u16, ex: u16) -> OpEffect {
    if op == OP_NOP {
        OpEffect::Nop
    } else if op == OP_SET {
        OpEffect::Write { b: av, ex }
    } else if op == OP_ADD {
        OpEffect::Write {
            b: ((bv + av) % 0x10000) as u16,
            ex: if bv + av >= 0x10000 {
                1
            } else {
                0
            },
        }
    } else if op == OP_SUB {
        OpEffect::Write {
            b: wrap_sub(bv, av),
            ex: if av > bv {
                0xffff
            } else {
                0
            },
        }
    } else if op == OP_MUL {
        OpEffect::Write { b: ((bv * av) % 0x10000) as u16, ex: ((bv * av) / 0x10000) as u16 }
    } else if op == OP_DIV {
        if av == 0 {
            OpEffect::Write { b: 0, ex: 0 }
        } else {
            OpEffect::Write {
                b: ((bv as int) / (av as int)) as u16,
                ex: (((bv * 0x10000) / (av as int)) % 0x10000) as u16,
            }
        }
    } else if op == OP_MOD {
        if av == 0 {
            OpEffect::Write { b: 0, ex }
        } else {
            OpEffect::Write { b: ((bv as int) % (av as int)) as u16, ex }
        }
    } else if op == OP_AND {
        OpEffect::Write { b: bv & av, ex }
    } else if op == OP_BOR {
        OpEffect::Write { b: bv | av, ex }
    } else if op == OP_XOR {
        OpEffect::Write { b: bv ^ av, ex }
    } else if op == OP_SHR {
        OpEffect::Write {
            b: ((bv as int) / (pow2(av as nat) as int)) as u16,
            ex: (((bv * 0x10000) / (pow2(av as nat) as int)) % 0x10000) as u16,
        }
    } else if op == OP_SHL {
        OpEffect::Write {
            b: ((bv * pow2(av as nat)) % 0x10000) as u16,
            ex: (((bv * pow2(av as nat)) / 0x10000) % 0x10000) as u16,
        }
    } else if is_skip_op(op) {
        OpEffect::SkipTest { cond: skip_cond(op, bv, av) }
    } else {
        OpEffect::Unknown
    }
}

/// Two raised to `k`, in executable code.
fn pow2_exec(k: u16) -> (r: u64)
    requires
        k < 32,
    ensures
        r == pow2(k as nat),
{
    let mut i: u16 = 0;
    let mut r: u64 = 1;
    proof {
        assert(pow2(0) == 1) by {
            lemma2_to64();
        }
    }
    while i < k
        invariant
            i <= k < 32,
            r == pow2(i as nat),
        decreases k - i,
    {
        proof {
            lemma_pow2_unfold((i + 1) as nat);
            if (i as nat) < 31 {
                lemma_pow2_strictly_increases(i as nat, 31);
            }
            lemma2_to64();
        }
        r = r * 2;
        i = i + 1;
    }
    r
}

/// A left shift by 32 or more moves every bit of the word past both the
/// result and the overflow register.
proof fn lemma_shl_all_out(bv: u16, av: u16)
    requires
        av >= 32,
    ensures
        (bv * pow2(av as nat)) % 0x10000 == 0,
        ((bv * pow2(av as nat)) / 0x10000) % 0x10000 == 0,
{
    let a = av as nat;
    lemma_pow2_adds((a - 16) as nat, 16);
    lemma_pow2_adds((a - 32) as nat, 16);
    lemma2_to64();
    let k = pow2((a - 16) as nat) as int;
    let j = pow2((a - 32) as nat) as int;
    assert(pow2(a) == k * 0x10000);
    assert(k == j * 0x10000);
    assert(bv * pow2(a) == (bv * k) * 0x10000) by (nonlinear_arith)
        requires
            pow2(a) == k * 0x10000,
    ;
    lemma_mod_multiples_basic(bv * k, 0x10000);
    assert((bv * k) * 0x10000 == 0x10000 * (bv * k)) by (nonlinear_arith);
    lemma_div_multiples_vanish(bv * k, 0x10000);
    assert((bv * pow2(a)) / 0x10000 == bv * k);
    assert(bv * k == (bv * j) * 0x10000) by (nonlinear_arith)
        requires
            k == j * 0x10000,
    ;
    lemma_mod_multiples_basic(bv * j, 0x10000);
}

/// A right shift by 32 or more drops every bit of the word, including the
/// bits routed into the overflow register.
proof fn lemma_shr_all_out(bv: u16, av: u16)
    requires
        av >= 32,
    ensures
        (bv as int) / (pow2(av as nat) as int) == 0,
        (bv * 0x10000) / (pow2(av as nat) as int) == 0,
{
    let a = av as nat;
    if a > 32 {
        lemma_pow2_strictly_increases(32, a);
    }
    lemma2_to64();
    assert(pow2(a) >= 0x100000000);
    lemma_basic_div(bv as int, pow2(a) as int);
    lemma_basic_div(bv * 0x10000, pow2(a) as int);
}

/// Left shift: low word of the shifted value and the bits shifted out.
fn shl_words(bv: u16, av: u16) -> (r: (u16, u16))
    ensures
        r.0 == ((bv * pow2(av as nat)) % 0x10000) as u16,
        r.1 == (((bv * pow2(av as nat)) / 0x10000) % 0x10000) as u16,
{
    if av >= 32 {
        proof {
            lemma_shl_all_out(bv, av);
        }
        (0, 0)
    } else {
        let p: u64 = pow2_exec(av);
        proof {
            if (av as nat) < 31 {
                lemma_pow2_strictly_increases(av as nat, 31);
            }
            lemma2_to64();
            assert(bv as u64 * p <= 0xffff * 0x80000000) by (nonlinear_arith)
                requires
                    bv <= 0xffff,
                    p <= 0x80000000,
            ;
        }
        let full: u64 = bv as u64 * p;
        ((full % 0x10000) as u16, ((full / 0x10000) % 0x10000) as u16)
    }
}

/// Right shift: the shifted value and the bits shifted out (the high word
/// of the value scaled up by one word before the shift).
fn shr_words(bv: u16, av: u16) -> (r: (u16, u16))
    ensures
        r.0 == ((bv as int) / (pow2(av as nat) as int)) as u16,
        r.1 == (((bv * 0x10000) / (pow2(av as nat) as int)) % 0x10000) as u16,
{
    if av >= 32 {
        proof {
            lemma_shr_all_out(bv, av);
        }
        (0, 0)
    } else {
        let p: u64 = pow2_exec(av);
        proof {
            lemma_pow2_pos(av as nat);
            lemma_div_nonincreasing(bv as int, p as int);
        }
        let q: u64 = bv as u64 / p;
        let full: u64 = bv as u64 * 0x10000;
        (q as u16, ((full / p) % 0x10000) as u16)
    }
}

/// Apply one opcode to resolved operand values, in executable code.
pub fn apply_binary(op: u16, bv: u16, av: u16, ex: u16) -> (r: OpEffect)
    ensures
        r == op_effect(op, bv, av, ex),
{
    if op == OP_NOP {
        OpEffect::Nop
    } else if op == OP_SET {
        OpEffect::Write { b: av, ex }
    } else if op == OP_ADD {
        let sum: u32 = bv as u32 + av as u32;
        OpEffect::Write {
            b: (sum % 0x10000) as u16,
            ex: if sum >= 0x10000 {
                1
            } else {
                0
            },
        }
    } else if op == OP_SUB {
        let b = if av <= bv {
            bv - av
        } else {
            (bv as u32 + 0x10000 - av as u32) as u16
        };
        OpEffect::Write {
            b,
            ex: if av > bv {
                0xffff
            } else {
                0
            },
        }
    } else if op == OP_MUL {
        proof {
            assert(bv * av <= 0xffff * 0xffff) by (nonlinear_arith)
                requires
                    bv <= 0xffff,
                    av <= 0xffff,
            ;
        }
        let prod: u32 = bv as u32 * av as u32;
        OpEffect::Write { b: (prod % 0x10000) as u16, ex: (prod / 0x10000) as u16 }
    } else if op == OP_DIV {
        if av == 0 {
            OpEffect::Write { b: 0, ex: 0 }
        } else {
            let scaled: u32 = (bv as u32 * 0x10000) / av as u32;
            OpEffect::Write { b: bv / av, ex: (scaled % 0x10000) as u16 }
        }
    } else if op == OP_MOD {
        if av == 0 {
            OpEffect::Write { b: 0, ex }
        } else {
            OpEffect::Write { b: bv % av, ex }
        }
    } else if op == OP_AND {
        OpEffect::Write { b: bv & av, ex }
    } else if op == OP_BOR {
        OpEffect::Write { b: bv | av, ex }
    } else if op == OP_XOR {
        OpEffect::Write { b: bv ^ av, ex }
    } else if op == OP_SHR {
        let s = shr_words(bv, av);
        OpEffect::Write { b: s.0, ex: s.1 }
    } else if op == OP_SHL {
        let s = shl_words(bv, av);
        OpEffect::Write { b: s.0, ex: s.1 }
    } else if op == OP_IFB {
        OpEffect::SkipTest { cond: (bv & av) != 0 }
    } else if op == OP_IFC {
        OpEffect::SkipTest { cond: (bv & av) == 0 }
    } else if op == OP_IFE {
        OpEffect::SkipTest { cond: bv == av }
    } else if op == OP_IFN {
        OpEffect::SkipTest { cond: bv != av }
    } else if op == OP_IFG {
        OpEffect::SkipTest { cond: bv > av }
    } else if op == OP_IFL {
        OpEffect::SkipTest { cond: bv < av }
    } else {
        OpEffect::Unknown
    }
}

} // verus!
