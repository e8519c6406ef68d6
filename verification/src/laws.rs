//! Machine-checked statements of the engine's governing properties, over
//! the same spec functions that the executable functions' contracts use.

use vstd::prelude::*;
use crate::alu::{
    is_skip_op, op_effect, skip_cond, wrap_sub, OpEffect, OP_ADD, OP_DIV, OP_MOD, OP_MUL, OP_SUB,
};
use crate::cpu::{step_av, step_b, step_bv, step_ins, step_spec, view_wf, CpuView};
use crate::decode::{
    a_of, b_of, enc_valid, ins_len, op_of, operand_read, operand_write, resolve_spec, wrap_add,
    Operand, NUM_REGS, RAM_SIZE,
};

verus! {

/// Resolving a register-direct encoding yields the register itself, moves
/// the program counter nowhere, and reads exactly the value stored in that
/// register; writing through it changes that register and nothing else.
pub proof fn lemma_register_direct(e: u16, pc: u16, reg: Seq<u16>, ram: Seq<u16>, v: u16)
    requires
        e <= 0x07,
        reg.len() == NUM_REGS,
    ensures
        resolve_spec(e, pc, reg, ram) == (Operand::Reg(e), pc),
        operand_read(Operand::Reg(e), reg, ram) == reg[e as int],
        operand_write(Operand::Reg(e), v, reg, ram).0 == reg.update(e as int, v),
        operand_write(Operand::Reg(e), v, reg, ram).0[e as int] == v,
        forall|j: int|
            0 <= j < NUM_REGS && j != e ==> operand_write(Operand::Reg(e), v, reg, ram).0[j]
                == reg[j],
        operand_write(Operand::Reg(e), v, reg, ram).1 == ram,
{
}

/// Resolving a register-indirect-with-offset encoding advances the
/// program counter by exactly one word and reads the offset from the
/// pre-advance program counter plus one; the operand is the memory cell at
/// the register's value plus that offset, wrapping.
pub proof fn lemma_offset_mode(e: u16, pc: u16, reg: Seq<u16>, ram: Seq<u16>)
    requires
        0x10 <= e <= 0x17,
        reg.len() == NUM_REGS,
        ram.len() == RAM_SIZE,
    ensures
        resolve_spec(e, pc, reg, ram).1 == wrap_add(pc, 1),
        resolve_spec(e, pc, reg, ram).0 == Operand::Mem(
            wrap_add(reg[(e - 0x10) as int], ram[wrap_add(pc, 1) as int]),
        ),
{
}

/// After a successful step that did not skip, the program counter stands
/// exactly one instruction past where it was: the instruction word plus
/// every extra word its operands consumed.
pub proof fn lemma_step_pc_advance(c: CpuView)
    requires
        view_wf(c),
        step_spec(c) is Ok,
        !(op_effect(op_of(step_ins(c)), step_bv(c), step_av(c), c.ex) is SkipTest
            && !op_effect(
            op_of(step_ins(c)),
            step_bv(c),
            step_av(c),
            c.ex,
        )->SkipTest_cond),
    ensures
        step_spec(c)->Ok_0.0.pc == wrap_add(c.pc, ins_len(step_ins(c))),
{
}

/// Addition and subtraction set the overflow register to exactly 1 or
/// 0xffff when unsigned 16-bit arithmetic over- or underflows, and to 0
/// otherwise; multiplication sets it to the high word of the full 32-bit
/// product.
pub proof fn lemma_arith_overflow(bv: u16, av: u16, ex: u16)
    ensures
        op_effect(OP_ADD, bv, av, ex) is Write,
        op_effect(OP_ADD, bv, av, ex)->Write_b == ((bv + av) % 0x10000) as u16,
        op_effect(OP_ADD, bv, av, ex)->Write_ex == (if bv + av >= 0x10000 {
            1u16
        } else {
            0u16
        }),
        op_effect(OP_SUB, bv, av, ex) is Write,
        op_effect(OP_SUB, bv, av, ex)->Write_b == wrap_sub(bv, av),
        op_effect(OP_SUB, bv, av, ex)->Write_ex == (if av > bv {
            0xffffu16
        } else {
            0u16
        }),
        op_effect(OP_MUL, bv, av, ex) is Write,
        op_effect(OP_MUL, bv, av, ex)->Write_b == ((bv * av) % 0x10000) as u16,
        op_effect(OP_MUL, bv, av, ex)->Write_ex == ((bv * av) / 0x10000) as u16,
{
}

/// Division and modulo by zero are defined, not faults: both write zero
/// into the destination; division also clears the overflow register while
/// modulo leaves it alone.  Neither is ever an unimplemented opcode, so a
/// zero divisor never faults the machine.
pub proof fn lemma_div_mod_by_zero(bv: u16, av: u16, ex: u16)
    ensures
        op_effect(OP_DIV, bv, 0, ex) == (OpEffect::Write { b: 0u16, ex: 0u16 }),
        op_effect(OP_MOD, bv, 0, ex) == (OpEffect::Write { b: 0u16, ex }),
        op_effect(OP_DIV, bv, av, ex) is Write,
        op_effect(OP_MOD, bv, av, ex) is Write,
{
}

/// A step faults exactly when an operand encoding is outside every
/// defined range or the opcode has no semantics; in every other case it
/// succeeds.  Together with `Cpu::tick`'s contract this pins the whole
/// error taxonomy of execution.
pub proof fn lemma_step_fault_iff(c: CpuView)
    requires
        view_wf(c),
    ensures
        step_spec(c) is Err <==> (!enc_valid(a_of(step_ins(c))) || !enc_valid(b_of(step_ins(c)))
            || op_effect(op_of(step_ins(c)), step_bv(c), step_av(c), c.ex)
            is Unknown),
{
}

/// A conditional-skip opcode whose condition is false executes no side
/// effect at all — registers, memory, and the overflow register keep
/// their values — and leaves the program counter exactly two instructions
/// past its starting value: its own length plus the full length of the
/// skipped instruction, extension words included.
pub proof fn lemma_skip_false(c: CpuView)
    requires
        view_wf(c),
        is_skip_op(op_of(step_ins(c))),
        enc_valid(a_of(step_ins(c))),
        enc_valid(b_of(step_ins(c))),
        !skip_cond(op_of(step_ins(c)), step_bv(c), step_av(c)),
    ensures
        step_spec(c) is Ok,
        step_spec(c)->Ok_0.0.reg == c.reg,
        step_spec(c)->Ok_0.0.ram == c.ram,
        step_spec(c)->Ok_0.0.ex == c.ex,
        step_spec(c)->Ok_0.0.sp == c.sp,
        step_spec(c)->Ok_0.0.ia == c.ia,
        step_spec(c)->Ok_0.0.state == c.state,
        step_spec(c)->Ok_0.0.pc == wrap_add(
            wrap_add(c.pc, ins_len(step_ins(c))),
            ins_len(c.ram[wrap_add(c.pc, ins_len(step_ins(c))) as int]),
        ),
{
    let op = op_of(step_ins(c));
    assert(op_effect(op, step_bv(c), step_av(c), c.ex) == (OpEffect::SkipTest {
        cond: skip_cond(op, step_bv(c), step_av(c)),
    }));
    let pc2 = step_b(c).1;
    let next_pc = wrap_add(pc2, 1);
    assert(next_pc == wrap_add(c.pc, ins_len(step_ins(c))));
}

} // verus!
