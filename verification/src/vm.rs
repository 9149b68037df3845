//! The virtual machine: a flat 65,536-word memory, a ten-word register
//! file, a running flag, and the fetch-decode-execute step.
//!
//! Trap service routines that touch the outside world are modelled as
//! effects: executing a trap instruction leaves the machine in its new
//! state and hands the caller an [`Effect`] saying what input or output
//! the routine asks for. The caller performs the input and hands the
//! result back through [`Vm::provide_char`] or [`Vm::provide_number`].

use vstd::prelude::*;

verus! {

use crate::isa::{Instruction, Register, TrapVect};
use crate::decode::{
    spec_decode,
    spec_opc,
    spec_dr,
    spec_sr1,
    spec_sext,
    opc,
    dr,
    sr1,
    base_r,
    offset_6,
    offset_9,
    offset_11,
    sext,
    lemma_field_bounds,
};

/// The condition flag for a positive value.
pub const F_P: u16 = 1;

/// The condition flag for a zero value.
pub const F_Z: u16 = 2;

/// The condition flag for a negative value (high bit set).
pub const F_N: u16 = 4;

/// The number of memory words.
pub const MEM_SIZE: usize = 0x10000;

/// The number of registers: R0..R7, then the program counter at index 8
/// and the condition register at index 9.
pub const REG_COUNT: usize = 10;

/// 16-bit modular addition.
pub open spec fn wadd(x: u16, y: u16) -> u16 {
    if x + y > 0xFFFF {
        (x + y - 0x10000) as u16
    } else {
        (x + y) as u16
    }
}

/// The condition flag describing a value: Z for zero, N for a value with
/// the high bit set, P otherwise.
pub open spec fn flag_of(v: u16) -> u16 {
    if v == 0 {
        F_Z
    } else if v >= 0x8000 {
        F_N
    } else {
        F_P
    }
}

/// Exactly one of the three condition flags describes any value, and
/// which one tells the value's sign under two's complement.
pub proof fn lemma_flag_exclusive(v: u16)
    ensures
        flag_of(v) == F_N || flag_of(v) == F_Z || flag_of(v) == F_P,
        flag_of(v) == F_Z <==> v == 0,
        flag_of(v) == F_N <==> v >= 0x8000,
        flag_of(v) == F_P <==> 0 < v < 0x8000,
{
}

/// The mathematical state of the machine.
pub struct VmView {
    pub mem: Seq<u16>,
    pub reg: Seq<u16>,
    pub running: bool,
}

impl VmView {
    /// The memory holds one word per address and the register file holds
    /// R0..R7, PC and COND.
    pub open spec fn wf(self) -> bool {
        self.mem.len() == MEM_SIZE && self.reg.len() == REG_COUNT
    }

    /// The word at an address.
    pub open spec fn read(self, a: u16) -> u16 {
        self.mem[a as int]
    }

    /// The state with one word replaced.
    pub open spec fn write(self, a: u16, v: u16) -> VmView {
        VmView { mem: self.mem.update(a as int, v), ..self }
    }

    /// The value of the register with the given file index.
    pub open spec fn get(self, k: int) -> u16 {
        self.reg[k]
    }

    /// The value of a register.
    pub open spec fn getr(self, r: Register) -> u16 {
        self.reg[r.code() as int]
    }

    /// The state with one register replaced.
    pub open spec fn set_reg(self, k: int, v: u16) -> VmView {
        VmView { reg: self.reg.update(k, v), ..self }
    }

    /// The state after writing a general-purpose register: the register
    /// takes the value and the condition register takes the value's flag.
    pub open spec fn set_gp(self, k: int, v: u16) -> VmView {
        self.set_reg(k, v).set_reg(9, flag_of(v))
    }

    /// The program counter.
    pub open spec fn pc(self) -> u16 {
        self.reg[8]
    }

    /// The condition register.
    pub open spec fn cond(self) -> u16 {
        self.reg[9]
    }

    /// The state with the running flag cleared.
    pub open spec fn halted(self) -> VmView {
        VmView { running: false, ..self }
    }
}

/// What a trap service routine asks of the outside world.
pub enum EffectView {
    /// Nothing: the instruction was internal to the machine.
    Continue,
    /// Read one byte from standard input without echo; hand it back
    /// through `provide_char`.
    ReadChar,
    /// Read one byte from standard input and echo it; hand it back
    /// through `provide_char`.
    ReadCharEcho,
    /// Write one byte to standard output.
    PutChar(u8),
    /// Write a byte string to standard output.
    PutString(Seq<u8>),
    /// Read a line, parse it as unsigned decimal, and hand the number
    /// back through `provide_number`.
    ReadNumber,
    /// Write a number as unsigned decimal with a trailing newline.
    PutNumber(u16),
}

/// What a trap service routine asks of the outside world. See
/// [`EffectView`] for the meaning of each variant.
#[derive(Debug, PartialEq, Eq)]
pub enum Effect {
    Continue,
    ReadChar,
    ReadCharEcho,
    PutChar(u8),
    PutString(Vec<u8>),
    ReadNumber,
    PutNumber(u16),
}

impl View for Effect {
    type V = EffectView;

    open spec fn view(&self) -> EffectView {
        match self {
            Effect::Continue => EffectView::Continue,
            Effect::ReadChar => EffectView::ReadChar,
            Effect::ReadCharEcho => EffectView::ReadCharEcho,
            Effect::PutChar(b) => EffectView::PutChar(*b),
            Effect::PutString(s) => EffectView::PutString(s@),
            Effect::ReadNumber => EffectView::ReadNumber,
            Effect::PutNumber(v) => EffectView::PutNumber(*v),
        }
    }
}

/// The bytes the PUTS routine writes: the low bytes of the words from
/// `addr` up to but not including the first zero word, stopping in any
/// case after `fuel` words.
pub open spec fn puts_seq(mem: Seq<u16>, addr: u16, fuel: nat) -> Seq<u8>
    recommends
        mem.len() == MEM_SIZE,
    decreases fuel,
{
    if fuel == 0 {
        Seq::empty()
    } else if mem[addr as int] == 0 {
        Seq::empty()
    } else {
        seq![(mem[addr as int] % 256) as u8] + puts_seq(mem, wadd(addr, 1), (fuel - 1) as nat)
    }
}

/// The machine's transition for one typed instruction: the new state and
/// the effect asked of the outside world. The program counter has
/// already been advanced past the instruction.
pub open spec fn instr_effect(s: VmView, i: Instruction) -> (VmView, EffectView) {
    match i {
        Instruction::Br(n, z, p, off9) => {
            let mask = (if n {
                F_N
            } else {
                0u16
            }) | (if z {
                F_Z
            } else {
                0u16
            }) | (if p {
                F_P
            } else {
                0u16
            });
            if s.cond() & mask != 0 {
                (s.set_reg(8, wadd(s.pc(), spec_sext(off9, 9))), EffectView::Continue)
            } else {
                (s, EffectView::Continue)
            }
        },
        Instruction::Add1(dr, sr1, sr2) => (
            s.set_gp(dr.code() as int, wadd(s.getr(sr1), s.getr(sr2))),
            EffectView::Continue,
        ),
        Instruction::Add2(dr, sr1, imm5) => (
            s.set_gp(dr.code() as int, wadd(s.getr(sr1), spec_sext(imm5, 5))),
            EffectView::Continue,
        ),
        Instruction::Ld(dr, off9) => (
            s.set_gp(dr.code() as int, s.read(wadd(s.pc(), spec_sext(off9, 9)))),
            EffectView::Continue,
        ),
        Instruction::St(sr, off9) => (
            s.write(wadd(s.pc(), spec_sext(off9, 9)), s.getr(sr)),
            EffectView::Continue,
        ),
        Instruction::Jsr(off11) => (
            s.set_reg(7, s.pc()).set_reg(8, wadd(s.pc(), spec_sext(off11, 11))),
            EffectView::Continue,
        ),
        Instruction::Jsrr(base) => {
            let saved = s.set_reg(7, s.pc());
            (saved.set_reg(8, saved.getr(base)), EffectView::Continue)
        },
        Instruction::And1(dr, sr1, sr2) => (
            s.set_gp(dr.code() as int, s.getr(sr1) & s.getr(sr2)),
            EffectView::Continue,
        ),
        Instruction::And2(dr, sr1, imm5) => (
            s.set_gp(dr.code() as int, s.getr(sr1) & spec_sext(imm5, 5)),
            EffectView::Continue,
        ),
        Instruction::Ldr(dr, base, off6) => (
            s.set_gp(dr.code() as int, s.read(wadd(s.getr(base), spec_sext(off6, 6)))),
            EffectView::Continue,
        ),
        Instruction::Str(sr, base, off6) => (
            s.write(wadd(s.getr(base), spec_sext(off6, 6)), s.getr(sr)),
            EffectView::Continue,
        ),
        Instruction::Rti => (s, EffectView::Continue),
        Instruction::Not(dr, sr) => (s.set_gp(dr.code() as int, !s.getr(sr)), EffectView::Continue),
        Instruction::Ldi(dr, off9) => (
            s.set_gp(dr.code() as int, s.read(s.read(wadd(s.pc(), spec_sext(off9, 9))))),
            EffectView::Continue,
        ),
        Instruction::Sti(sr, off9) => (
            s.write(s.read(wadd(s.pc(), spec_sext(off9, 9))), s.getr(sr)),
            EffectView::Continue,
        ),
        Instruction::Jmp(base) => (s.set_reg(8, s.getr(base)), EffectView::Continue),
        Instruction::Res => (s, EffectView::Continue),
        Instruction::Lea(dr, off9) => (
            s.set_gp(dr.code() as int, wadd(s.pc(), spec_sext(off9, 9))),
            EffectView::Continue,
        ),
        Instruction::Trap(t) => match t {
            TrapVect::GetC => (s, EffectView::ReadChar),
            TrapVect::OutC => (s, EffectView::PutChar((s.get(0) % 256) as u8)),
            TrapVect::PutS => (s, EffectView::PutString(puts_seq(s.mem, s.get(0), MEM_SIZE as nat))),
            TrapVect::In => (s, EffectView::ReadCharEcho),
            TrapVect::PutSp => (s, EffectView::Continue),
            TrapVect::Halt => (s.halted(), EffectView::Continue),
            TrapVect::InU16 => (s, EffectView::ReadNumber),
            TrapVect::OutU16 => (s, EffectView::PutNumber(s.get(0))),
        },
    }
}

/// One fetch-decode-execute step from a state: fetch the word at the
/// program counter, advance the counter, and execute. `None` when the
/// fetched word is a trap with a vector outside 0x20..=0x27, which the
/// machine treats as a fatal error.
pub open spec fn spec_step(s: VmView) -> Option<(VmView, EffectView)> {
    let w = s.read(s.pc());
    match spec_decode(w) {
        Some(i) => Some(instr_effect(s.set_reg(8, wadd(s.pc(), 1)), i)),
        None => None,
    }
}

/// A fatal machine error.
#[derive(Clone, Copy, Debug, PartialEq, Eq, Structural)]
pub enum VmError {
    /// An image of fewer than two bytes has no origin header.
    ImageTooShort,
    /// An image payload with an odd number of bytes is not a word
    /// sequence.
    ImageOddLength,
    /// The image payload does not fit between its origin and the top of
    /// memory.
    ImageTooLarge,
    /// A trap instruction named a vector outside 0x20..=0x27.
    InvalidTrap,
}

/// The big-endian word at word index `k` of a byte sequence.
pub open spec fn word_at(b: Seq<u8>, k: int) -> u16 {
    (b[2 * k] * 256 + b[2 * k + 1]) as u16
}

/// The machine: memory, registers and the running flag.
pub struct Vm {
    mem: Vec<u16>,
    reg: Vec<u16>,
    running: bool,
}

impl View for Vm {
    type V = VmView;

    closed spec fn view(&self) -> VmView {
        VmView { mem: self.mem@, reg: self.reg@, running: self.running }
    }
}

impl Vm {
    /// A machine with all memory and registers zero, ready to run.
    pub fn new() -> (r: Vm)
        ensures
            r@.wf(),
            r@.running,
            forall|a: int| 0 <= a < MEM_SIZE ==> r@.mem[a] == 0,
            forall|k: int| 0 <= k < REG_COUNT ==> r@.reg[k] == 0,
    {
        let mut mem: Vec<u16> = Vec::new();
        let mut i: usize = 0;
        while i < MEM_SIZE
            invariant
                i <= MEM_SIZE,
                mem@.len() == i,
                forall|a: int| 0 <= a < i ==> mem@[a] == 0,
            decreases MEM_SIZE - i,
        {
            mem.push(0);
            i += 1;
        }
        let mut reg: Vec<u16> = Vec::new();
        let mut k: usize = 0;
        while k < REG_COUNT
            invariant
                k <= REG_COUNT,
                reg@.len() == k,
                forall|j: int| 0 <= j < k ==> reg@[j] == 0,
            decreases REG_COUNT - k,
        {
            reg.push(0);
            k += 1;
        }
        Vm { mem, reg, running: true }
    }

    /// Whether the machine is still running; HALT clears this.
    pub fn running(&self) -> (r: bool)
        ensures
            r == self@.running,
    {
        self.running
    }

    /// The word at an address.
    pub fn read(&self, address: u16) -> (r: u16)
        requires
            self@.wf(),
        ensures
            r == self@.read(address),
    {
        self.mem[address as usize]
    }

    /// Replace the word at an address.
    pub fn write(&mut self, address: u16, value: u16)
        requires
            old(self)@.wf(),
        ensures
            final(self)@ == old(self)@.write(address, value),
    {
        self.mem[address as usize] = value;
    }

    /// The value of the register with file index `r` (0..7 the
    /// general-purpose registers, 8 the program counter, 9 the condition
    /// register).
    pub fn reg(&self, r: u16) -> (v: u16)
        requires
            self@.wf(),
            r < 10,
        ensures
            v == self@.get(r as int),
    {
        self.reg[r as usize]
    }

    /// Set the condition register to the flag describing the value of
    /// register `r`.
    pub fn update_flag(&mut self, r: Register)
        requires
            old(self)@.wf(),
        ensures
            final(self)@ == old(self)@.set_reg(9, flag_of(old(self)@.getr(r))),
    {
        proof {
            assert(r.code() < 10);
        }
        let v = self.reg[r.bytecode() as usize];
        self.reg[9] = if v == 0 {
            F_Z
        } else if v >= 0x8000 {
            F_N
        } else {
            F_P
        };
    }

    /// Place a byte buffer of big-endian words into memory starting at
    /// `start`. Fails, leaving the machine unchanged, when the buffer is
    /// not a whole number of words or does not fit below the top of
    /// memory.
    pub fn load(&mut self, buffer: &[u8], start: u16) -> (r: Result<(), VmError>)
        requires
            old(self)@.wf(),
        ensures
            final(self)@.wf(),
            match r {
                Ok(_) => {
                    &&& buffer@.len() % 2 == 0
                    &&& start + buffer@.len() / 2 <= 0xFFFF
                    &&& forall|k: int|
                        0 <= k < buffer@.len() / 2 ==> final(self)@.mem[start + k] == word_at(
                            buffer@,
                            k,
                        )
                    &&& forall|a: int|
                        0 <= a < MEM_SIZE && !(start <= a < start + buffer@.len() / 2)
                            ==> final(self)@.mem[a] == old(self)@.mem[a]
                    &&& final(self)@.reg == old(self)@.reg
                    &&& final(self)@.running == old(self)@.running
                },
                Err(e) => {
                    &&& final(self)@ == old(self)@
                    &&& (e == VmError::ImageOddLength && buffer@.len() % 2 != 0 || e
                        == VmError::ImageTooLarge && buffer@.len() % 2 == 0 && start + buffer@.len()
                        / 2 > 0xFFFF)
                },
            },
    {
        if buffer.len() % 2 != 0 {
            return Err(VmError::ImageOddLength);
        }
        let words = buffer.len() / 2;
        if words > 0xFFFF - (start as usize) {
            return Err(VmError::ImageTooLarge);
        }
        let mut i: usize = 0;
        while i < words
            invariant
                self@.wf(),
                words == buffer@.len() / 2,
                buffer@.len() % 2 == 0,
                start + words <= 0xFFFF,
                i <= words,
                forall|k: int| 0 <= k < i ==> self@.mem[start + k] == word_at(buffer@, k),
                forall|a: int|
                    0 <= a < MEM_SIZE && !(start <= a < start + i) ==> self@.mem[a] == old(
                        self,
                    )@.mem[a],
                self@.reg == old(self)@.reg,
                self@.running == old(self)@.running,
            decreases words - i,
        {
            let hi = buffer[2 * i];
            let lo = buffer[2 * i + 1];
            let value: u16 = (hi as u16) * 256 + (lo as u16);
            self.mem[start as usize + i] = value;
            i += 1;
        }
        Ok(())
    }

    /// Load an image: the first two bytes give the origin, big-endian;
    /// the remaining bytes are words placed into memory from the origin
    /// on; the program counter is set to the origin plus `offset`.
    pub fn load_image(&mut self, buffer: &[u8], offset: u16) -> (r: Result<(), VmError>)
        requires
            old(self)@.wf(),
        ensures
            final(self)@.wf(),
            match r {
                Ok(_) => {
                    &&& buffer@.len() >= 2
                    &&& buffer@.len() % 2 == 0
                    &&& word_at(buffer@, 0) + (buffer@.len() - 2) / 2 <= 0xFFFF
                    &&& forall|k: int|
                        0 <= k < (buffer@.len() - 2) / 2 ==> final(self)@.mem[word_at(buffer@, 0)
                            + k] == word_at(buffer@.skip(2), k)
                    &&& forall|a: int|
                        0 <= a < MEM_SIZE && !(word_at(buffer@, 0) <= a < word_at(buffer@, 0) + (
                        buffer@.len() - 2) / 2) ==> final(self)@.mem[a] == old(self)@.mem[a]
                    &&& final(self)@.reg == old(self)@.reg.update(
                        8,
                        wadd(word_at(buffer@, 0), offset),
                    )
                    &&& final(self)@.running == old(self)@.running
                },
                Err(e) => {
                    &&& final(self)@ == old(self)@
                    &&& (e == VmError::ImageTooShort && buffer@.len() < 2 || buffer@.len() >= 2 && (
                    e == VmError::ImageOddLength && buffer@.len() % 2 != 0 || e
                        == VmError::ImageTooLarge && buffer@.len() % 2 == 0 && word_at(buffer@, 0)
                        + (buffer@.len() - 2) / 2 > 0xFFFF))
                },
            },
    {
        if buffer.len() < 2 {
            return Err(VmError::ImageTooShort);
        }
        let origin: u16 = (buffer[0] as u16) * 256 + (buffer[1] as u16);
        let mut rest: Vec<u8> = Vec::new();
        let mut i: usize = 2;
        while i < buffer.len()
            invariant
                2 <= i <= buffer@.len(),
                rest@ == buffer@.subrange(2, i as int),
            decreases buffer@.len() - i,
        {
            rest.push(buffer[i]);
            i += 1;
        }
        assert(rest@ == buffer@.skip(2));
        assert(origin == word_at(buffer@, 0));
        match self.load(rest.as_slice(), origin) {
            Ok(_) => {
                self.reg[8] = origin.wrapping_add(offset);
                Ok(())
            },
            Err(e) => Err(e),
        }
    }

    /// The zero-terminated byte string at an address: the low bytes of
    /// the words from `start` to the first zero word. Stops after one
    /// full sweep of memory if no zero word is found.
    pub fn string_at(&self, start: u16) -> (r: Vec<u8>)
        requires
            self@.wf(),
        ensures
            r@ == puts_seq(self@.mem, start, MEM_SIZE as nat),
    {
        let mut out: Vec<u8> = Vec::new();
        let mut addr: u16 = start;
        let mut n: usize = 0;
        while n < MEM_SIZE && self.mem[addr as usize] != 0
            invariant
                self@.wf(),
                n <= MEM_SIZE,
                out@ + puts_seq(self@.mem, addr, (MEM_SIZE - n) as nat) == puts_seq(
                    self@.mem,
                    start,
                    MEM_SIZE as nat,
                ),
            decreases MEM_SIZE - n,
        {
            let w = self.mem[addr as usize];
            proof {
                assert(puts_seq(self@.mem, addr, (MEM_SIZE - n) as nat) == seq![
                    (self@.mem[addr as int] % 256) as u8,
                ] + puts_seq(self@.mem, wadd(addr, 1), (MEM_SIZE - n - 1) as nat));
                assert(out@ + (seq![(self@.mem[addr as int] % 256) as u8] + puts_seq(
                    self@.mem,
                    wadd(addr, 1),
                    (MEM_SIZE - n - 1) as nat,
                )) =~= out@.push((self@.mem[addr as int] % 256) as u8) + puts_seq(
                    self@.mem,
                    wadd(addr, 1),
                    (MEM_SIZE - n - 1) as nat,
                ));
            }
            out.push((w % 256) as u8);
            addr = addr.wrapping_add(1);
            n += 1;
        }
        proof {
            assert(puts_seq(self@.mem, addr, (MEM_SIZE - n) as nat) =~= Seq::<u8>::empty());
            assert(out@ + Seq::<u8>::empty() =~= out@);
        }
        out
    }

    /// Hand the machine a byte read from standard input: the GETC and IN
    /// routines place it in R0.
    pub fn provide_char(&mut self, c: u8)
        requires
            old(self)@.wf(),
        ensures
            final(self)@ == old(self)@.set_reg(0, c as u16),
    {
        self.reg[0] = c as u16;
    }

    /// Hand the machine a number read from standard input: the decimal
    /// input routine places it in R0.
    pub fn provide_number(&mut self, v: u16)
        requires
            old(self)@.wf(),
        ensures
            final(self)@ == old(self)@.set_reg(0, v),
    {
        self.reg[0] = v;
    }

    /// Conditional branch: when the condition register meets the mask in
    /// bits 11..9, add the sign-extended 9-bit offset to the program
    /// counter.
    pub fn op_br(&mut self, i: u16) -> (eff: Effect)
        requires
            old(self)@.wf(),
            spec_opc(i) == 0,
        ensures
            match spec_decode(i) {
                Some(instr) => (final(self)@, eff@) == instr_effect(old(self)@, instr),
                None => false,
            },
    {
        proof {
            lemma_field_bounds(i);
            crate::decode::lemma_br_mask(i);
        }
        let cond = self.reg[9];
        if cond & ((i >> 9) & 0x7) != 0 {
            let pc = self.reg[8];
            self.reg[8] = pc.wrapping_add(offset_9(i));
        }
        Effect::Continue
    }

    /// Add: register plus register or sign-extended 5-bit immediate,
    /// modular; flags updated.
    pub fn op_add(&mut self, i: u16) -> (eff: Effect)
        requires
            old(self)@.wf(),
            spec_opc(i) == 1,
        ensures
            match spec_decode(i) {
                Some(instr) => (final(self)@, eff@) == instr_effect(old(self)@, instr),
                None => false,
            },
    {
        proof {
            lemma_field_bounds(i);
            crate::isa::lemma_register_code(spec_dr(i));
            crate::isa::lemma_register_code(spec_sr1(i));
            crate::isa::lemma_register_code(i & 0x7);
        }
        let d = dr(i);
        let s1 = sr1(i);
        let s2 = i & 0x7;
        let bit_5 = (i >> 5) & 0x1 == 1;
        let v = if bit_5 {
            self.reg[s1 as usize].wrapping_add(sext(i & 0x1F, 5))
        } else {
            self.reg[s1 as usize].wrapping_add(self.reg[s2 as usize])
        };
        self.reg[d as usize] = v;
        self.update_flag(Register::from_code(d));
        Effect::Continue
    }

    /// Load PC-relative; flags updated.
    pub fn op_ld(&mut self, i: u16) -> (eff: Effect)
        requires
            old(self)@.wf(),
            spec_opc(i) == 2,
        ensures
            match spec_decode(i) {
                Some(instr) => (final(self)@, eff@) == instr_effect(old(self)@, instr),
                None => false,
            },
    {
        proof {
            lemma_field_bounds(i);
            crate::isa::lemma_register_code(spec_dr(i));
        }
        let d = dr(i);
        let pc = self.reg[8];
        let v = self.read(pc.wrapping_add(offset_9(i)));
        self.reg[d as usize] = v;
        self.update_flag(Register::from_code(d));
        Effect::Continue
    }

    /// Store PC-relative.
    pub fn op_st(&mut self, i: u16) -> (eff: Effect)
        requires
            old(self)@.wf(),
            spec_opc(i) == 3,
        ensures
            match spec_decode(i) {
                Some(instr) => (final(self)@, eff@) == instr_effect(old(self)@, instr),
                None => false,
            },
    {
        proof {
            lemma_field_bounds(i);
            crate::isa::lemma_register_code(spec_dr(i));
        }
        let pc = self.reg[8];
        let v = self.reg[dr(i) as usize];
        self.write(pc.wrapping_add(offset_9(i)), v);
        Effect::Continue
    }

    /// Subroutine jump: save the program counter in R7, then jump
    /// PC-relative (bit 11 set) or through a base register.
    pub fn op_jsr(&mut self, i: u16) -> (eff: Effect)
        requires
            old(self)@.wf(),
            spec_opc(i) == 4,
        ensures
            match spec_decode(i) {
                Some(instr) => (final(self)@, eff@) == instr_effect(old(self)@, instr),
                None => false,
            },
    {
        proof {
            lemma_field_bounds(i);
            crate::isa::lemma_register_code(spec_sr1(i));
        }
        let pc = self.reg[8];
        self.reg[7] = pc;
        let bit_11 = (i >> 11) & 0x1 == 1;
        if bit_11 {
            self.reg[8] = pc.wrapping_add(offset_11(i));
        } else {
            let b = base_r(i);
            let t = self.reg[b as usize];
            self.reg[8] = t;
        }
        Effect::Continue
    }

    /// Bitwise and: register with register or sign-extended 5-bit
    /// immediate; flags updated.
    pub fn op_and(&mut self, i: u16) -> (eff: Effect)
        requires
            old(self)@.wf(),
            spec_opc(i) == 5,
        ensures
            match spec_decode(i) {
                Some(instr) => (final(self)@, eff@) == instr_effect(old(self)@, instr),
                None => false,
            },
    {
        proof {
            lemma_field_bounds(i);
            crate::isa::lemma_register_code(spec_dr(i));
            crate::isa::lemma_register_code(spec_sr1(i));
            crate::isa::lemma_register_code(i & 0x7);
        }
        let d = dr(i);
        let s1 = sr1(i);
        let s2 = i & 0x7;
        let bit_5 = (i >> 5) & 0x1 == 1;
        let v = if bit_5 {
            self.reg[s1 as usize] & sext(i & 0x1F, 5)
        } else {
            self.reg[s1 as usize] & self.reg[s2 as usize]
        };
        self.reg[d as usize] = v;
        self.update_flag(Register::from_code(d));
        Effect::Continue
    }

    /// Load base-plus-offset; flags updated.
    pub fn op_ldr(&mut self, i: u16) -> (eff: Effect)
        requires
            old(self)@.wf(),
            spec_opc(i) == 6,
        ensures
            match spec_decode(i) {
                Some(instr) => (final(self)@, eff@) == instr_effect(old(self)@, instr),
                None => false,
            },
    {
        proof {
            lemma_field_bounds(i);
            crate::isa::lemma_register_code(spec_dr(i));
            crate::isa::lemma_register_code(spec_sr1(i));
        }
        let d = dr(i);
        let s = sr1(i);
        let base = self.reg[s as usize];
        let v = self.read(base.wrapping_add(offset_6(i)));
        self.reg[d as usize] = v;
        self.update_flag(Register::from_code(d));
        Effect::Continue
    }

    /// Store base-plus-offset.
    pub fn op_str(&mut self, i: u16) -> (eff: Effect)
        requires
            old(self)@.wf(),
            spec_opc(i) == 7,
        ensures
            match spec_decode(i) {
                Some(instr) => (final(self)@, eff@) == instr_effect(old(self)@, instr),
                None => false,
            },
    {
        proof {
            lemma_field_bounds(i);
            crate::isa::lemma_register_code(spec_dr(i));
            crate::isa::lemma_register_code(spec_sr1(i));
        }
        let base = self.reg[sr1(i) as usize];
        let v = self.reg[dr(i) as usize];
        self.write(base.wrapping_add(offset_6(i)), v);
        Effect::Continue
    }

    /// Return from interrupt: this machine has no privileged mode, so the
    /// instruction does nothing.
    pub fn op_rti(&mut self, i: u16) -> (eff: Effect)
        requires
            old(self)@.wf(),
            spec_opc(i) == 8,
        ensures
            match spec_decode(i) {
                Some(instr) => (final(self)@, eff@) == instr_effect(old(self)@, instr),
                None => false,
            },
    {
        Effect::Continue
    }

    /// Bitwise complement; flags updated.
    pub fn op_not(&mut self, i: u16) -> (eff: Effect)
        requires
            old(self)@.wf(),
            spec_opc(i) == 9,
        ensures
            match spec_decode(i) {
                Some(instr) => (final(self)@, eff@) == instr_effect(old(self)@, instr),
                None => false,
            },
    {
        proof {
            lemma_field_bounds(i);
            crate::isa::lemma_register_code(spec_dr(i));
            crate::isa::lemma_register_code(spec_sr1(i));
        }
        let d = dr(i);
        let s = sr1(i);
        let v = !self.reg[s as usize];
        self.reg[d as usize] = v;
        self.update_flag(Register::from_code(d));
        Effect::Continue
    }

    /// Load indirect: through a PC-relative pointer word; flags updated.
    pub fn op_ldi(&mut self, i: u16) -> (eff: Effect)
        requires
            old(self)@.wf(),
            spec_opc(i) == 10,
        ensures
            match spec_decode(i) {
                Some(instr) => (final(self)@, eff@) == instr_effect(old(self)@, instr),
                None => false,
            },
    {
        proof {
            lemma_field_bounds(i);
            crate::isa::lemma_register_code(spec_dr(i));
        }
        let d = dr(i);
        let pc = self.reg[8];
        let p = self.read(pc.wrapping_add(offset_9(i)));
        let v = self.read(p);
        self.reg[d as usize] = v;
        self.update_flag(Register::from_code(d));
        Effect::Continue
    }

    /// Store indirect: through a PC-relative pointer word.
    pub fn op_sti(&mut self, i: u16) -> (eff: Effect)
        requires
            old(self)@.wf(),
            spec_opc(i) == 11,
        ensures
            match spec_decode(i) {
                Some(instr) => (final(self)@, eff@) == instr_effect(old(self)@, instr),
                None => false,
            },
    {
        proof {
            lemma_field_bounds(i);
            crate::isa::lemma_register_code(spec_dr(i));
        }
        let pc = self.reg[8];
        let a = self.read(pc.wrapping_add(offset_9(i)));
        let v = self.reg[dr(i) as usize];
        self.write(a, v);
        Effect::Continue
    }

    /// Jump through a base register; with base R7 this is the
    /// conventional subroutine return.
    pub fn op_jmp(&mut self, i: u16) -> (eff: Effect)
        requires
            old(self)@.wf(),
            spec_opc(i) == 12,
        ensures
            match spec_decode(i) {
                Some(instr) => (final(self)@, eff@) == instr_effect(old(self)@, instr),
                None => false,
            },
    {
        proof {
            lemma_field_bounds(i);
            crate::isa::lemma_register_code(spec_sr1(i));
        }
        let b = base_r(i);
        let t = self.reg[b as usize];
        self.reg[8] = t;
        Effect::Continue
    }

    /// The reserved opcode: defined but inert.
    pub fn op_res(&mut self, i: u16) -> (eff: Effect)
        requires
            old(self)@.wf(),
            spec_opc(i) == 13,
        ensures
            match spec_decode(i) {
                Some(instr) => (final(self)@, eff@) == instr_effect(old(self)@, instr),
                None => false,
            },
    {
        Effect::Continue
    }

    /// Load effective address: the program counter plus the sign-extended
    /// 9-bit offset; flags updated.
    pub fn op_lea(&mut self, i: u16) -> (eff: Effect)
        requires
            old(self)@.wf(),
            spec_opc(i) == 14,
        ensures
            match spec_decode(i) {
                Some(instr) => (final(self)@, eff@) == instr_effect(old(self)@, instr),
                None => false,
            },
    {
        proof {
            lemma_field_bounds(i);
            crate::isa::lemma_register_code(spec_dr(i));
        }
        let d = dr(i);
        let pc = self.reg[8];
        let v = pc.wrapping_add(offset_9(i));
        self.reg[d as usize] = v;
        self.update_flag(Register::from_code(d));
        Effect::Continue
    }

    /// Execute a trap: dispatch on the vector in the low byte to one of
    /// the eight service routines.
    pub fn op_trap(&mut self, i: u16) -> (eff: Effect)
        requires
            old(self)@.wf(),
            spec_opc(i) == 15,
            0x20 <= (i & 0xFF) <= 0x27,
        ensures
            match spec_decode(i) {
                Some(instr) => (final(self)@, eff@) == instr_effect(old(self)@, instr),
                None => false,
            },
    {
        proof {
            lemma_field_bounds(i);
        }
        let v = i & 0xFF;
        if v == 0x20 {
            Effect::ReadChar
        } else if v == 0x21 {
            let b = (self.reg[0] % 256) as u8;
            Effect::PutChar(b)
        } else if v == 0x22 {
            let r0 = self.reg[0];
            let s = self.string_at(r0);
            Effect::PutString(s)
        } else if v == 0x23 {
            Effect::ReadCharEcho
        } else if v == 0x24 {
            Effect::Continue
        } else if v == 0x25 {
            self.running = false;
            Effect::Continue
        } else if v == 0x26 {
            Effect::ReadNumber
        } else {
            Effect::PutNumber(self.reg[0])
        }
    }

    /// Execute one instruction word: dispatch on the top 4 bits to the
    /// handler for that opcode and no other. The program counter must
    /// already have been advanced past the instruction.
    pub fn op(&mut self, i: u16) -> (eff: Effect)
        requires
            old(self)@.wf(),
            spec_opc(i) == 15 ==> 0x20 <= (i & 0xFF) <= 0x27,
        ensures
            match spec_decode(i) {
                Some(instr) => (final(self)@, eff@) == instr_effect(old(self)@, instr),
                None => false,
            },
    {
        proof {
            lemma_field_bounds(i);
        }
        let k = opc(i);
        if k == 0 {
            self.op_br(i)
        } else if k == 1 {
            self.op_add(i)
        } else if k == 2 {
            self.op_ld(i)
        } else if k == 3 {
            self.op_st(i)
        } else if k == 4 {
            self.op_jsr(i)
        } else if k == 5 {
            self.op_and(i)
        } else if k == 6 {
            self.op_ldr(i)
        } else if k == 7 {
            self.op_str(i)
        } else if k == 8 {
            self.op_rti(i)
        } else if k == 9 {
            self.op_not(i)
        } else if k == 10 {
            self.op_ldi(i)
        } else if k == 11 {
            self.op_sti(i)
        } else if k == 12 {
            self.op_jmp(i)
        } else if k == 13 {
            self.op_res(i)
        } else if k == 14 {
            self.op_lea(i)
        } else {
            self.op_trap(i)
        }
    }

    /// One fetch-decode-execute step: fetch the word at the program
    /// counter, advance the counter, and execute. Fails without touching
    /// the machine when the word is a trap with a vector outside
    /// 0x20..=0x27.
    pub fn step(&mut self) -> (r: Result<Effect, VmError>)
        requires
            old(self)@.wf(),
        ensures
            match r {
                Ok(eff) => spec_step(old(self)@) == Some((final(self)@, eff@)),
                Err(e) => {
                    &&& spec_step(old(self)@) is None
                    &&& final(self)@ == old(self)@
                    &&& e == VmError::InvalidTrap
                },
            },
    {
        proof {
            lemma_field_bounds(self@.read(self@.pc()));
        }
        let pc = self.reg[8];
        let w = self.mem[pc as usize];
        if w >> 12 == 15 {
            let v = w & 0xFF;
            if !(0x20 <= v && v <= 0x27) {
                return Err(VmError::InvalidTrap);
            }
        }
        self.reg[8] = pc.wrapping_add(1);
        let eff = self.op(w);
        Ok(eff)
    }
}


/// The conventional name of the opcode at each of the sixteen dispatch
/// indices.
pub open spec fn spec_op_name(k: int) -> Seq<char> {
    if k == 0 {
        "br"@
    } else if k == 1 {
        "add"@
    } else if k == 2 {
        "ld"@
    } else if k == 3 {
        "st"@
    } else if k == 4 {
        "jsr"@
    } else if k == 5 {
        "and"@
    } else if k == 6 {
        "ldr"@
    } else if k == 7 {
        "str"@
    } else if k == 8 {
        "rti"@
    } else if k == 9 {
        "not"@
    } else if k == 10 {
        "ldi"@
    } else if k == 11 {
        "sti"@
    } else if k == 12 {
        "jmp"@
    } else if k == 13 {
        "res"@
    } else if k == 14 {
        "lea"@
    } else {
        "trap"@
    }
}

/// The name of the opcode with the given dispatch index.
pub fn op_name(k: usize) -> (r: &'static str)
    requires
        k < 16,
    ensures
        r@ == spec_op_name(k as int),
{
    if k == 0 {
        "br"
    } else if k == 1 {
        "add"
    } else if k == 2 {
        "ld"
    } else if k == 3 {
        "st"
    } else if k == 4 {
        "jsr"
    } else if k == 5 {
        "and"
    } else if k == 6 {
        "ldr"
    } else if k == 7 {
        "str"
    } else if k == 8 {
        "rti"
    } else if k == 9 {
        "not"
    } else if k == 10 {
        "ldi"
    } else if k == 11 {
        "sti"
    } else if k == 12 {
        "jmp"
    } else if k == 13 {
        "res"
    } else if k == 14 {
        "lea"
    } else {
        "trap"
    }
}

/// The general-purpose register an instruction writes, if any.
pub open spec fn written_gp(i: Instruction) -> Option<Register> {
    match i {
        Instruction::Add1(d, _, _) => Some(d),
        Instruction::Add2(d, _, _) => Some(d),
        Instruction::And1(d, _, _) => Some(d),
        Instruction::And2(d, _, _) => Some(d),
        Instruction::Not(d, _) => Some(d),
        Instruction::Ld(d, _) => Some(d),
        Instruction::Ldi(d, _) => Some(d),
        Instruction::Ldr(d, _, _) => Some(d),
        Instruction::Lea(d, _) => Some(d),
        _ => None,
    }
}

/// After any instruction that writes a general-purpose register, the
/// condition register holds exactly one of the three flags, and which
/// one tells the sign of the register's new value under two's
/// complement: Z for zero, N for a value with the high bit set, P
/// otherwise.
pub proof fn lemma_flag_after_write(s: VmView, i: Instruction, d: Register)
    requires
        s.wf(),
        i.wf(),
        written_gp(i) == Some(d),
    ensures
        ({
            let s2 = instr_effect(s, i).0;
            &&& s2.cond() == flag_of(s2.getr(d))
            &&& s2.cond() == F_N || s2.cond() == F_Z || s2.cond() == F_P
            &&& (s2.cond() == F_Z <==> s2.getr(d) == 0)
            &&& (s2.cond() == F_N <==> s2.getr(d) >= 0x8000)
            &&& (s2.cond() == F_P <==> 0 < s2.getr(d) < 0x8000)
        }),
{
    let s2 = instr_effect(s, i).0;
    assert(d.code() < 8);
    match i {
        Instruction::Add1(_, _, _) => {},
        Instruction::Add2(_, _, _) => {},
        Instruction::And1(_, _, _) => {},
        Instruction::And2(_, _, _) => {},
        Instruction::Not(_, _) => {},
        Instruction::Ld(_, _) => {},
        Instruction::Ldi(_, _) => {},
        Instruction::Ldr(_, _, _) => {},
        Instruction::Lea(_, _) => {},
        _ => {},
    }
    lemma_flag_exclusive(s2.getr(d));
}

} // verus!
