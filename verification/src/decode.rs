//! Instruction-word decoding and operand-addressing-mode resolution.
//!
//! An instruction word packs three bit-fields: a 5-bit opcode in the low
//! bits, a 5-bit "b" operand encoding above it, and a 6-bit "a" operand
//! encoding in the high bits.  An operand encoding designates a
//! general-purpose register, a memory cell addressed through a register
//! (optionally displaced by the next program word), or, for "a" only, a
//! small immediate literal.

use vstd::prelude::*;

verus! {

/// Number of words in memory; all addresses wrap modulo this.
pub const RAM_SIZE: usize = 0x10000;

/// Number of general-purpose registers.
pub const NUM_REGS: usize = 8;

/// Opcode field: the low five bits of the instruction word.
pub open spec fn op_of(ins: u16) -> u16 {
    ins % 32
}

/// "b" operand-encoding field: the middle five bits.
pub open spec fn b_of(ins: u16) -> u16 {
    (ins / 32) % 32
}

/// "a" operand-encoding field: the high six bits.
pub open spec fn a_of(ins: u16) -> u16 {
    ins / 1024
}

/// Extract the opcode field.
pub fn op_field(ins: u16) -> (r: u16)
    ensures
        r == op_of(ins),
{
    ins % 32
}

/// Extract the "b" operand-encoding field.
pub fn b_field(ins: u16) -> (r: u16)
    ensures
        r == b_of(ins),
{
    (ins / 32) % 32
}

/// Extract the "a" operand-encoding field.
pub fn a_field(ins: u16) -> (r: u16)
    ensures
        r == a_of(ins),
{
    ins / 1024
}

/// A resolved operand: a general-purpose register slot, a memory cell, or
/// an immediate literal.  A literal has a value but no writable location.
#[derive(Clone, Copy, PartialEq, Eq, Structural, Debug)]
pub enum Operand {
    Reg(u16),
    Mem(u16),
    Lit(u16),
}

/// Encodings that designate a general-purpose register directly.
pub open spec fn enc_is_reg(e: u16) -> bool {
    e <= 0x07
}

/// Encodings that designate memory addressed through a register.
pub open spec fn enc_is_ind(e: u16) -> bool {
    0x08 <= e <= 0x0f
}

/// Encodings that designate memory addressed through a register plus the
/// next program word; these consume that word and cost one extra cycle.
pub open spec fn enc_is_off(e: u16) -> bool {
    0x10 <= e <= 0x17
}

/// Encodings that designate a small immediate literal (only reachable
/// through the six-bit "a" field).
pub open spec fn enc_is_lit(e: u16) -> bool {
    0x20 <= e <= 0x3f
}

/// The encodings this machine defines; anything else is an invalid operand.
pub open spec fn enc_valid(e: u16) -> bool {
    e <= 0x17 || enc_is_lit(e)
}

/// How many extra program words resolving this encoding consumes.
pub open spec fn enc_extra_words(e: u16) -> u16 {
    if enc_is_off(e) {
        1
    } else {
        0
    }
}

/// The literal an encoding in the immediate range stands for: the range
/// covers -1 (as an unsigned word) through 30.
pub open spec fn lit_of(e: u16) -> u16 {
    if e == 0x20 {
        0xffff
    } else {
        (e - 0x21) as u16
    }
}

/// Total words an instruction occupies: the instruction word itself plus
/// any words its two operand encodings consume.
pub open spec fn ins_len(ins: u16) -> u16 {
    (1 + enc_extra_words(a_of(ins)) + enc_extra_words(b_of(ins))) as u16
}

/// Resolve one operand encoding against the register file and memory, with
/// the program counter at `pc` (still pointing at the instruction word or
/// at the last operand word consumed so far).  Returns the operand and the
/// new program counter; meaningful only when `enc_valid(e)` holds.
///
/// An offset encoding advances the program counter by one and reads the
/// offset word there, so resolving "a" before "b" changes which word "b"
/// would consume: resolution order is fixed as "a" first.
pub open spec fn resolve_spec(e: u16, pc: u16, reg: Seq<u16>, ram: Seq<u16>) -> (Operand, u16) {
    if enc_is_reg(e) {
        (Operand::Reg(e), pc)
    } else if enc_is_ind(e) {
        (Operand::Mem(reg[(e - 0x08) as int]), pc)
    } else if enc_is_off(e) {
        let pc1 = wrap_add(pc, 1);
        (Operand::Mem(wrap_add(reg[(e - 0x10) as int], ram[pc1 as int])), pc1)
    } else {
        (Operand::Lit(lit_of(e)), pc)
    }
}

/// A well-formed operand: register indices stay inside the register file.
/// (Memory addresses are words, so they are always inside memory.)
pub open spec fn operand_wf(o: Operand) -> bool {
    match o {
        Operand::Reg(i) => i < 8,
        Operand::Mem(_) => true,
        Operand::Lit(_) => true,
    }
}

/// The word an operand reads.
pub open spec fn operand_read(o: Operand, reg: Seq<u16>, ram: Seq<u16>) -> u16 {
    match o {
        Operand::Reg(i) => reg[i as int],
        Operand::Mem(a) => ram[a as int],
        Operand::Lit(v) => v,
    }
}

/// The register file and memory after writing `v` through an operand.
/// Writing through a literal is undefined: the executor never does it,
/// because the writable "b" field cannot encode a literal.
pub open spec fn operand_write(o: Operand, v: u16, reg: Seq<u16>, ram: Seq<u16>) -> (
    Seq<u16>,
    Seq<u16>,
) {
    match o {
        Operand::Reg(i) => (reg.update(i as int, v), ram),
        Operand::Mem(a) => (reg, ram.update(a as int, v)),
        Operand::Lit(_) => (reg, ram),
    }
}

/// Addition of two words, wrapping modulo the address space.
pub open spec fn wrap_add(x: u16, y: u16) -> u16 {
    ((x + y) % 0x10000) as u16
}

/// Count the extra program words an encoding consumes, in executable code.
pub fn extra_words(e: u16) -> (r: u16)
    ensures
        r == enc_extra_words(e),
{
    if 0x10 <= e && e <= 0x17 {
        1
    } else {
        0
    }
}

/// Compute `wrap_add` in executable code.
pub fn wrap_add_words(x: u16, y: u16) -> (r: u16)
    ensures
        r == wrap_add(x, y),
{
    let s: u32 = x as u32 + y as u32;
    (s % 0x10000) as u16
}

} // verus!
