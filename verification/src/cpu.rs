//! The virtual machine: register file, memory, and the fetch-decode-execute
//! engine with its fault state machine.
//!
//! One `Cpu` owns all its state.  A program image is loaded into a fixed
//! program region of memory by `boot`; `tick` executes exactly one
//! instruction and either succeeds (returning its cycle cost) or moves the
//! machine into a terminal faulted state that only `reset` leaves, with the
//! registers and memory untouched by the failed instruction.

use vstd::prelude::*;
use crate::alu::{apply_binary, op_effect, OpEffect};
use crate::decode::{
    a_field, a_of, b_field, b_of, enc_extra_words, enc_valid, extra_words, ins_len, op_field,
    op_of, operand_read, operand_wf, operand_write, resolve_spec, wrap_add, wrap_add_words,
    Operand, NUM_REGS, RAM_SIZE,
};

verus! {

/// First word of the program region; `boot` starts execution here.
pub const PROG_START: u16 = 0x8000;

/// Capacity of the program region, in words.
pub const PROG_SIZE: usize = 0x8000;

/// Where the machine stands in its lifecycle.  `Halted` is the state
/// before a boot; `Ready` means the program counter designates the next
/// instruction to fetch; `Faulted` is terminal and only `reset` leaves it.
#[derive(Clone, Copy, PartialEq, Eq, Structural, Debug)]
pub enum MachineState {
    Halted,
    Ready,
    Faulted,
}

/// Why a step could not execute.  The program counter reported is the one
/// the faulting instruction was fetched from.
#[derive(Clone, Copy, PartialEq, Eq, Structural, Debug)]
pub enum Fault {
    /// The machine is not in the `Ready` state.
    NotReady,
    /// An operand-encoding value outside every defined range.
    InvalidOperand { encoding: u16, pc: u16 },
    /// A structurally valid opcode with no semantics assigned.
    UnimplementedOpcode { opcode: u16, pc: u16 },
}

/// Why a program image was rejected; a rejected load changes nothing.
#[derive(Clone, Copy, PartialEq, Eq, Structural, Debug)]
pub enum LoadError {
    /// The image has an odd byte count: it ends mid instruction.
    OddLength,
    /// The image does not fit in the program region.
    TooLarge,
}

/// A read-only view of the scalar registers, for diagnostic display.
#[derive(Clone, Copy, PartialEq, Eq, Structural, Debug)]
pub struct Snapshot {
    pub pc: u16,
    pub sp: u16,
    pub ex: u16,
    pub ia: u16,
}

/// The mathematical state of the machine.
#[verifier::ext_equal]
pub ghost struct CpuView {
    pub reg: Seq<u16>,
    pub pc: u16,
    pub sp: u16,
    pub ex: u16,
    pub ia: u16,
    pub ram: Seq<u16>,
    pub rom: Seq<u16>,
    pub state: MachineState,
}

/// A well-formed machine state: the register file and both word arrays
/// have their fixed sizes.
pub open spec fn view_wf(c: CpuView) -> bool {
    &&& c.reg.len() == NUM_REGS
    &&& c.ram.len() == RAM_SIZE
    &&& c.rom.len() == PROG_SIZE
}

/// A sequence of `n` zero words.
pub open spec fn zero_seq(n: nat) -> Seq<u16> {
    Seq::new(n, |i: int| 0u16)
}

/// The 16-bit word-addressed virtual machine.
pub struct Cpu {
    reg: Vec<u16>,
    pc: u16,
    sp: u16,
    ex: u16,
    ia: u16,
    ram: Vec<u16>,
    rom: Vec<u16>,
    state: MachineState,
}

impl View for Cpu {
    type V = CpuView;

    closed spec fn view(&self) -> CpuView {
        CpuView {
            reg: self.reg@,
            pc: self.pc,
            sp: self.sp,
            ex: self.ex,
            ia: self.ia,
            ram: self.ram@,
            rom: self.rom@,
            state: self.state,
        }
    }
}

/// Memory after `boot`: the program region mirrors the program image, the
/// rest is untouched.
pub open spec fn booted_ram(ram: Seq<u16>, rom: Seq<u16>) -> Seq<u16> {
    Seq::new(
        RAM_SIZE as nat,
        |i: int|
            if i >= PROG_START {
                rom[i - PROG_START]
            } else {
                ram[i]
            },
    )
}

/// The machine after `boot`: execution starts at the program region, the
/// stack grows downward from just below it, and the image sits in memory.
pub open spec fn boot_view(c: CpuView) -> CpuView {
    CpuView {
        pc: PROG_START,
        sp: (PROG_START - 1) as u16,
        ram: booted_ram(c.ram, c.rom),
        state: MachineState::Ready,
        ..c
    }
}

/// 32 consecutive words of memory starting at `offset`, addresses wrapping.
pub open spec fn dump_view(c: CpuView, offset: u16) -> Seq<u16> {
    Seq::new(32, |i: int| c.ram[wrap_add(offset, i as u16) as int])
}

/// The word at index `i` of a little-endian byte image: low byte first.
pub open spec fn word_at_le(bytes: Seq<u8>, i: int) -> u16 {
    (bytes[2 * i] + 256 * bytes[2 * i + 1]) as u16
}

/// The program image after accepting a byte image: its words replace the
/// front of the previous image, the rest of which is kept.
pub open spec fn loaded_rom(rom: Seq<u16>, bytes: Seq<u8>) -> Seq<u16> {
    Seq::new(
        PROG_SIZE as nat,
        |i: int|
            if i < bytes.len() / 2 {
                word_at_le(bytes, i)
            } else {
                rom[i]
            },
    )
}

/// One fetch-decode-execute step over machine states, the contract of
/// `Cpu::tick`: either the machine after the instruction together with the
/// step's cycle cost, or the fault that stopped it.
///
/// The "a" operand is resolved first, then "b"; each may advance the
/// program counter by consuming the next program word.  The opcode then
/// runs on the operand values and, for most opcodes, writes through the
/// "b" location; finally the program counter moves one past the last word
/// of the instruction.  A false skip condition moves it past the following
/// instruction as well, extension words included.  Invalid operand
/// encodings and opcodes without semantics fault without touching
/// anything.
/// The instruction word the next step fetches.
pub open spec fn step_ins(c: CpuView) -> u16 {
    c.ram[c.pc as int]
}

/// The resolved "a" operand of the next step and the program counter after
/// resolving it; "a" is always resolved first.
pub open spec fn step_a(c: CpuView) -> (Operand, u16) {
    resolve_spec(a_of(step_ins(c)), c.pc, c.reg, c.ram)
}

/// The resolved "b" operand of the next step and the program counter after
/// resolving it; "b" is resolved second, so an extra word consumed by "a"
/// moves the word "b" would consume.
pub open spec fn step_b(c: CpuView) -> (Operand, u16) {
    resolve_spec(b_of(step_ins(c)), step_a(c).1, c.reg, c.ram)
}

/// The value the "a" operand of the next step reads.
pub open spec fn step_av(c: CpuView) -> u16 {
    operand_read(step_a(c).0, c.reg, c.ram)
}

/// The value the "b" operand of the next step reads.
pub open spec fn step_bv(c: CpuView) -> u16 {
    operand_read(step_b(c).0, c.reg, c.ram)
}

pub open spec fn step_spec(c: CpuView) -> Result<(CpuView, u16), Fault> {
    let ins = step_ins(c);
    let op = op_of(ins);
    let ae = a_of(ins);
    let be = b_of(ins);
    if !enc_valid(ae) {
        Err(Fault::InvalidOperand { encoding: ae, pc: c.pc })
    } else if !enc_valid(be) {
        Err(Fault::InvalidOperand { encoding: be, pc: c.pc })
    } else {
        let b_res = step_b(c);
        let av = step_av(c);
        let bv = step_bv(c);
        let pc2 = b_res.1;
        let cycles = (1 + enc_extra_words(ae) + enc_extra_words(be)) as u16;
        match op_effect(op, bv, av, c.ex) {
            OpEffect::Nop => Ok((CpuView { pc: wrap_add(pc2, 1), ..c }, cycles)),
            OpEffect::Write { b, ex } => {
                let wr = operand_write(b_res.0, b, c.reg, c.ram);
                Ok((CpuView { reg: wr.0, ram: wr.1, ex, pc: wrap_add(pc2, 1), ..c }, cycles))
            },
            OpEffect::SkipTest { cond } => {
                if cond {
                    Ok((CpuView { pc: wrap_add(pc2, 1), ..c }, cycles))
                } else {
                    let next_pc = wrap_add(pc2, 1);
                    Ok(
                        (
                            CpuView { pc: wrap_add(next_pc, ins_len(c.ram[next_pc as int])), ..c },
                            cycles,
                        ),
                    )
                }
            },
            OpEffect::Unknown => Err(Fault::UnimplementedOpcode { opcode: op, pc: c.pc }),
        }
    }
}

/// Relies on byteorder's `ByteOrder::read_u16` for `LittleEndian`: it
/// reads an unsigned 16-bit integer from the first two bytes of the
/// buffer, low byte first.
#[verifier::external_body]
fn word_from_le(lo: u8, hi: u8) -> (r: u16)
    ensures
        r == lo + 256 * hi,
{
    let buf: [u8; 2] = [lo, hi];
    <byteorder::LittleEndian as byteorder::ByteOrder>::read_u16(&buf)
}

/// Build a vector of `n` zero words.
fn zero_words(n: usize) -> (v: Vec<u16>)
    ensures
        v@ == zero_seq(n as nat),
{
    let mut v: Vec<u16> = Vec::new();
    let mut i: usize = 0;
    while i < n
        invariant
            i == v@.len() <= n,
            forall|j: int| 0 <= j < i ==> v@[j] == 0u16,
        decreases n - i,
    {
        v.push(0);
        i = i + 1;
    }
    proof {
        assert(v@ =~= zero_seq(n as nat));
    }
    v
}

impl Cpu {
    /// The structural invariant of the machine.
    pub open spec fn wf(self) -> bool {
        view_wf(self@)
    }

    /// A machine with every register and every memory cell zero, halted.
    pub fn new() -> (c: Cpu)
        ensures
            c.wf(),
            c@ == (CpuView {
                reg: zero_seq(NUM_REGS as nat),
                pc: 0u16,
                sp: 0u16,
                ex: 0u16,
                ia: 0u16,
                ram: zero_seq(RAM_SIZE as nat),
                rom: zero_seq(PROG_SIZE as nat),
                state: MachineState::Halted,
            }),
    {
        Cpu {
            reg: zero_words(NUM_REGS),
            pc: 0,
            sp: 0,
            ex: 0,
            ia: 0,
            ram: zero_words(RAM_SIZE),
            rom: zero_words(PROG_SIZE),
            state: MachineState::Halted,
        }
    }

    /// Zero every register and every memory cell and halt the machine; the
    /// loaded program image is kept, so a later `boot` restores it.
    pub fn reset(&mut self)
        requires
            old(self).wf(),
        ensures
            final(self).wf(),
            final(self)@ == (CpuView {
                reg: zero_seq(NUM_REGS as nat),
                pc: 0u16,
                sp: 0u16,
                ex: 0u16,
                ia: 0u16,
                ram: zero_seq(RAM_SIZE as nat),
                rom: old(self)@.rom,
                state: MachineState::Halted,
            }),
    {
        self.reg = zero_words(NUM_REGS);
        self.pc = 0;
        self.sp = 0;
        self.ex = 0;
        self.ia = 0;
        self.ram = zero_words(RAM_SIZE);
        self.state = MachineState::Halted;
    }

    /// Copy the program image into the program region and start execution
    /// at its first word, with the stack just below it.  A faulted machine
    /// cannot be booted: it must be `reset` first.
    pub fn boot(&mut self)
        requires
            old(self).wf(),
            old(self)@.state != MachineState::Faulted,
        ensures
            final(self).wf(),
            final(self)@ == boot_view(old(self)@),
    {
        self.pc = PROG_START;
        self.sp = PROG_START - 1;
        let mut i: usize = 0;
        while i < PROG_SIZE
            invariant
                old(self).wf(),
                i <= PROG_SIZE,
                self.reg == old(self).reg,
                self.pc == PROG_START,
                self.sp == PROG_START - 1,
                self.ex == old(self).ex,
                self.ia == old(self).ia,
                self.rom == old(self).rom,
                self.state == old(self).state,
                self.ram@.len() == RAM_SIZE,
                forall|j: int|
                    0 <= j < i ==> self.ram@[PROG_START + j] == old(self).rom@[j],
                forall|j: int|
                    0 <= j < RAM_SIZE && !(PROG_START <= j < PROG_START + i) ==> self.ram@[j]
                        == old(self).ram@[j],
            decreases PROG_SIZE - i,
        {
            let w = self.rom[i];
            self.ram[PROG_START as usize + i] = w;
            i = i + 1;
        }
        self.state = MachineState::Ready;
        proof {
            assert(self@.ram =~= booted_ram(old(self)@.ram, old(self)@.rom));
            assert(self@ =~= boot_view(old(self)@));
        }
    }

    /// Deliberate hard stop: the machine moves to the terminal faulted
    /// state with everything else untouched.
    pub fn fail(&mut self)
        ensures
            final(self)@ == (CpuView { state: MachineState::Faulted, ..old(self)@ }),
    {
        self.state = MachineState::Faulted;
    }

    /// Where the machine stands in its lifecycle.
    pub fn state(&self) -> (r: MachineState)
        ensures
            r == self@.state,
    {
        self.state
    }

    /// The scalar registers, for diagnostic display.
    pub fn snapshot(&self) -> (r: Snapshot)
        ensures
            r == (Snapshot { pc: self@.pc, sp: self@.sp, ex: self@.ex, ia: self@.ia }),
    {
        Snapshot { pc: self.pc, sp: self.sp, ex: self.ex, ia: self.ia }
    }

    /// Read one general-purpose register.
    pub fn get_reg(&self, i: usize) -> (r: u16)
        requires
            self.wf(),
            i < NUM_REGS,
        ensures
            r == self@.reg[i as int],
    {
        self.reg[i]
    }

    /// Write one general-purpose register.
    pub fn set_reg(&mut self, i: usize, v: u16)
        requires
            old(self).wf(),
            i < NUM_REGS,
        ensures
            final(self).wf(),
            final(self)@ == (CpuView { reg: old(self)@.reg.update(i as int, v), ..old(self)@ }),
    {
        self.reg[i] = v;
    }

    /// Read one memory cell; every word value is a valid address.
    pub fn peek(&self, addr: u16) -> (r: u16)
        requires
            self.wf(),
        ensures
            r == self@.ram[addr as int],
    {
        self.ram[addr as usize]
    }

    /// Write one memory cell.
    pub fn poke(&mut self, addr: u16, v: u16)
        requires
            old(self).wf(),
        ensures
            final(self).wf(),
            final(self)@ == (CpuView { ram: old(self)@.ram.update(addr as int, v), ..old(self)@ }),
    {
        self.ram[addr as usize] = v;
    }

    /// 32 consecutive words of memory starting at `offset`, for display;
    /// addresses wrap around the end of memory.
    pub fn dump(&self, offset: u16) -> (r: Vec<u16>)
        requires
            self.wf(),
        ensures
            r@ == dump_view(self@, offset),
    {
        let mut v: Vec<u16> = Vec::new();
        let mut i: u16 = 0;
        while i < 32
            invariant
                self.wf(),
                i <= 32,
                i == v@.len(),
                forall|j: int| 0 <= j < i ==> v@[j] == self@.ram[wrap_add(offset, j as u16) as int],
            decreases 32 - i,
        {
            let addr = wrap_add_words(offset, i);
            v.push(self.ram[addr as usize]);
            i = i + 1;
        }
        proof {
            assert(v@ =~= dump_view(self@, offset));
        }
        v
    }

    /// The 32 words of memory at the program counter.
    pub fn dump_ins(&self) -> (r: Vec<u16>)
        requires
            self.wf(),
        ensures
            r@ == dump_view(self@, self@.pc),
    {
        self.dump(self.pc)
    }

    /// Resolve one operand encoding with the program counter at `pc`,
    /// without touching machine state; `None` is an invalid encoding.
    fn resolve(&self, e: u16, pc: u16) -> (r: Option<(Operand, u16)>)
        requires
            self.wf(),
        ensures
            enc_valid(e) ==> r == Some(resolve_spec(e, pc, self@.reg, self@.ram)),
            enc_valid(e) ==> operand_wf(resolve_spec(e, pc, self@.reg, self@.ram).0),
            !enc_valid(e) ==> r is None,
    {
        if e <= 0x07 {
            Some((Operand::Reg(e), pc))
        } else if e <= 0x0f {
            Some((Operand::Mem(self.reg[(e - 0x08) as usize]), pc))
        } else if e <= 0x17 {
            let pc1 = wrap_add_words(pc, 1);
            let off = self.ram[pc1 as usize];
            Some((Operand::Mem(wrap_add_words(self.reg[(e - 0x10) as usize], off)), pc1))
        } else if 0x20 <= e && e <= 0x3f {
            Some((Operand::Lit(if e == 0x20 { 0xffff } else { e - 0x21 }), pc))
        } else {
            None
        }
    }

    /// Read the word a resolved operand designates.
    fn read_operand(&self, o: Operand) -> (r: u16)
        requires
            self.wf(),
            operand_wf(o),
        ensures
            r == operand_read(o, self@.reg, self@.ram),
    {
        match o {
            Operand::Reg(i) => self.reg[i as usize],
            Operand::Mem(a) => self.ram[a as usize],
            Operand::Lit(v) => v,
        }
    }

    /// Write a word through a resolved operand.  A literal has no
    /// location; the executor never writes one, because the writable "b"
    /// field cannot encode a literal.
    fn write_operand(&mut self, o: Operand, v: u16)
        requires
            old(self).wf(),
            operand_wf(o),
            !(o is Lit),
        ensures
            final(self).wf(),
            ({
                let wr = operand_write(o, v, old(self)@.reg, old(self)@.ram);
                final(self)@ == (CpuView { reg: wr.0, ram: wr.1, ..old(self)@ })
            }),
    {
        match o {
            Operand::Reg(i) => {
                self.reg[i as usize] = v;
            },
            Operand::Mem(a) => {
                self.ram[a as usize] = v;
            },
            Operand::Lit(_) => {
            },
        }
    }

    /// Execute exactly one instruction: fetch the word at the program
    /// counter, resolve the "a" operand and then the "b" operand (each may
    /// consume an extra program word), apply the opcode, and commit.  On
    /// success the cycle cost of the step is returned: one cycle plus one
    /// per extra operand word consumed.
    ///
    /// A fault (invalid operand encoding, opcode without semantics, or a
    /// machine that is not ready) commits nothing: registers, memory and
    /// the program counter keep the values they had before the step, and
    /// the machine moves to the terminal faulted state.
    pub fn tick(&mut self) -> (r: Result<u16, Fault>)
        requires
            old(self).wf(),
        ensures
            final(self).wf(),
            old(self)@.state != MachineState::Ready ==> r == Err::<u16, Fault>(Fault::NotReady)
                && final(self)@ == old(self)@,
            old(self)@.state == MachineState::Ready ==> (match step_spec(old(self)@) {
                Ok(sc) => r == Ok::<u16, Fault>(sc.1) && final(self)@ == sc.0,
                Err(f) => r == Err::<u16, Fault>(f) && final(self)@ == (CpuView {
                    state: MachineState::Faulted,
                    ..old(self)@
                }),
            }),
    {
        match self.state {
            MachineState::Ready => {},
            _ => {
                return Err(Fault::NotReady);
            },
        }
        let pc0 = self.pc;
        let ins = self.ram[pc0 as usize];
        let op = op_field(ins);
        let be = b_field(ins);
        let ae = a_field(ins);
        let a_r = self.resolve(ae, pc0);
        let (a_opnd, pc1) = match a_r {
            Some(x) => x,
            None => {
                self.state = MachineState::Faulted;
                return Err(Fault::InvalidOperand { encoding: ae, pc: pc0 });
            },
        };
        let b_r = self.resolve(be, pc1);
        let (b_opnd, pc2) = match b_r {
            Some(x) => x,
            None => {
                self.state = MachineState::Faulted;
                return Err(Fault::InvalidOperand { encoding: be, pc: pc0 });
            },
        };
        let av = self.read_operand(a_opnd);
        let bv = self.read_operand(b_opnd);
        let cycles: u16 = 1 + extra_words(ae) + extra_words(be);
        match apply_binary(op, bv, av, self.ex) {
            OpEffect::Nop => {
                self.pc = wrap_add_words(pc2, 1);
                proof {
                    assert(final(self)@ =~= step_spec(old(self)@)->Ok_0.0);
                }
                Ok(cycles)
            },
            OpEffect::Write { b, ex } => {
                proof {
                    assert(be <= 0x17);
                }
                self.write_operand(b_opnd, b);
                self.ex = ex;
                self.pc = wrap_add_words(pc2, 1);
                proof {
                    assert(final(self)@ =~= step_spec(old(self)@)->Ok_0.0);
                }
                Ok(cycles)
            },
            OpEffect::SkipTest { cond } => {
                if cond {
                    self.pc = wrap_add_words(pc2, 1);
                } else {
                    let next_pc = wrap_add_words(pc2, 1);
                    let ins2 = self.ram[next_pc as usize];
                    let len2: u16 = 1 + extra_words(a_field(ins2)) + extra_words(b_field(ins2));
                    self.pc = wrap_add_words(next_pc, len2);
                }
                proof {
                    assert(final(self)@ =~= step_spec(old(self)@)->Ok_0.0);
                }
                Ok(cycles)
            },
            OpEffect::Unknown => {
                self.state = MachineState::Faulted;
                Err(Fault::UnimplementedOpcode { opcode: op, pc: pc0 })
            },
        }
    }

    /// Accept a program image as raw bytes, decode it into words (little
    /// endian, low byte first), store it as the program image, and boot.
    /// An image with an odd byte count or one too large for the program
    /// region is rejected and nothing changes, not even partially.
    pub fn load_image(&mut self, bytes: &Vec<u8>) -> (r: Result<(), LoadError>)
        requires
            old(self).wf(),
            old(self)@.state != MachineState::Faulted,
        ensures
            final(self).wf(),
            bytes@.len() % 2 != 0 ==> r == Err::<(), LoadError>(LoadError::OddLength)
                && final(self)@ == old(self)@,
            bytes@.len() % 2 == 0 && bytes@.len() > 2 * PROG_SIZE ==> r == Err::<(), LoadError>(
                LoadError::TooLarge,
            ) && final(self)@ == old(self)@,
            bytes@.len() % 2 == 0 && bytes@.len() <= 2 * PROG_SIZE ==> r == Ok::<(), LoadError>(())
                && final(self)@ == boot_view(
                CpuView { rom: loaded_rom(old(self)@.rom, bytes@), ..old(self)@ },
            ),
    {
        if bytes.len() % 2 != 0 {
            return Err(LoadError::OddLength);
        }
        if bytes.len() > 2 * PROG_SIZE {
            return Err(LoadError::TooLarge);
        }
        let n = bytes.len() / 2;
        let mut i: usize = 0;
        while i < n
            invariant
                old(self).wf(),
                bytes@.len() % 2 == 0,
                n == bytes@.len() / 2 <= PROG_SIZE,
                i <= n,
                self.reg == old(self).reg,
                self.pc == old(self).pc,
                self.sp == old(self).sp,
                self.ex == old(self).ex,
                self.ia == old(self).ia,
                self.ram == old(self).ram,
                self.state == old(self).state,
                self.rom@.len() == PROG_SIZE,
                forall|j: int| 0 <= j < i ==> self.rom@[j] == word_at_le(bytes@, j),
                forall|j: int| i <= j < PROG_SIZE ==> self.rom@[j] == old(self).rom@[j],
            decreases n - i,
        {
            let w = word_from_le(bytes[2 * i], bytes[2 * i + 1]);
            self.rom[i] = w;
            i = i + 1;
        }
        proof {
            assert(self@ =~= (CpuView { rom: loaded_rom(old(self)@.rom, bytes@), ..old(self)@ }));
        }
        self.boot();
        Ok(())
    }
}

} // verus!
