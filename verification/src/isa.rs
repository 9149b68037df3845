//! The instruction set: registers, trap vectors and the typed instruction
//! form, together with the encoder that maps a typed instruction to its
//! 16-bit word.
//!
//! The word layout puts the opcode in the top 4 bits; the remaining bits
//! hold register numbers and immediates as documented on each variant.

use vstd::prelude::*;

verus! {

/// A machine register: eight general-purpose registers, the program
/// counter and the condition register. The register file is indexed
/// 0 through 9 in this order.
#[derive(Clone, Copy, Debug, PartialEq, Eq, Structural)]
pub enum Register {
    R0,
    R1,
    R2,
    R3,
    R4,
    R5,
    R6,
    R7,
    Pc,
    Cond,
}

impl Register {
    /// The index of this register in the register file, which is also the
    /// bit pattern used for it in instruction words (general-purpose
    /// registers only; `Pc` and `Cond` never appear in a word).
    pub open spec fn code(self) -> u16 {
        match self {
            Register::R0 => 0,
            Register::R1 => 1,
            Register::R2 => 2,
            Register::R3 => 3,
            Register::R4 => 4,
            Register::R5 => 5,
            Register::R6 => 6,
            Register::R7 => 7,
            Register::Pc => 8,
            Register::Cond => 9,
        }
    }

    /// A general-purpose register, encodable in a 3-bit field.
    pub open spec fn is_gp(self) -> bool {
        self.code() < 8
    }

    /// The 3-bit field value of this register in an instruction word.
    pub fn bytecode(&self) -> (r: u16)
        ensures
            r == self.code(),
    {
        match self {
            Register::R0 => 0,
            Register::R1 => 1,
            Register::R2 => 2,
            Register::R3 => 3,
            Register::R4 => 4,
            Register::R5 => 5,
            Register::R6 => 6,
            Register::R7 => 7,
            Register::Pc => 8,
            Register::Cond => 9,
        }
    }

    /// The register with the given register-file index.
    pub fn from_code(code: u16) -> (r: Register)
        requires
            code < 10,
        ensures
            r == spec_register(code),
    {
        if code == 0 {
            Register::R0
        } else if code == 1 {
            Register::R1
        } else if code == 2 {
            Register::R2
        } else if code == 3 {
            Register::R3
        } else if code == 4 {
            Register::R4
        } else if code == 5 {
            Register::R5
        } else if code == 6 {
            Register::R6
        } else if code == 7 {
            Register::R7
        } else if code == 8 {
            Register::Pc
        } else {
            Register::Cond
        }
    }
}

/// The register with the given register-file index; indices 10 and above
/// do not name a register and fall back to `R0`.
pub open spec fn spec_register(code: u16) -> Register {
    if code == 0 {
        Register::R0
    } else if code == 1 {
        Register::R1
    } else if code == 2 {
        Register::R2
    } else if code == 3 {
        Register::R3
    } else if code == 4 {
        Register::R4
    } else if code == 5 {
        Register::R5
    } else if code == 6 {
        Register::R6
    } else if code == 7 {
        Register::R7
    } else if code == 8 {
        Register::Pc
    } else {
        Register::Cond
    }
}

/// Indexing a register's own code gives the register back.
pub proof fn lemma_register_code(code: u16)
    requires
        code < 10,
    ensures
        spec_register(code).code() == code,
{
}

/// A trap service routine, named by its 8-bit vector 0x20 through 0x27.
#[derive(Clone, Copy, Debug, PartialEq, Eq, Structural)]
pub enum TrapVect {
    GetC,
    OutC,
    PutS,
    In,
    PutSp,
    Halt,
    InU16,
    OutU16,
}

impl TrapVect {
    /// The 8-bit vector of this trap.
    pub open spec fn vect(self) -> u16 {
        match self {
            TrapVect::GetC => 0x20,
            TrapVect::OutC => 0x21,
            TrapVect::PutS => 0x22,
            TrapVect::In => 0x23,
            TrapVect::PutSp => 0x24,
            TrapVect::Halt => 0x25,
            TrapVect::InU16 => 0x26,
            TrapVect::OutU16 => 0x27,
        }
    }

    /// The trap vector as it appears in the low byte of a trap word.
    pub fn bytecode(&self) -> (r: u16)
        ensures
            r == self.vect(),
    {
        match self {
            TrapVect::GetC => 0x20,
            TrapVect::OutC => 0x21,
            TrapVect::PutS => 0x22,
            TrapVect::In => 0x23,
            TrapVect::PutSp => 0x24,
            TrapVect::Halt => 0x25,
            TrapVect::InU16 => 0x26,
            TrapVect::OutU16 => 0x27,
        }
    }
}

/// The trap named by a vector in 0x20 through 0x27; other values do not
/// name a trap and fall back to `GetC`.
pub open spec fn spec_trap_vect(v: u16) -> TrapVect {
    if v == 0x20 {
        TrapVect::GetC
    } else if v == 0x21 {
        TrapVect::OutC
    } else if v == 0x22 {
        TrapVect::PutS
    } else if v == 0x23 {
        TrapVect::In
    } else if v == 0x24 {
        TrapVect::PutSp
    } else if v == 0x25 {
        TrapVect::Halt
    } else if v == 0x26 {
        TrapVect::InU16
    } else {
        TrapVect::OutU16
    }
}

/// A typed machine instruction. Immediate fields hold the raw unsigned
/// bit pattern of the stated width; the machine sign-extends on decode.
#[derive(Clone, Copy, Debug, PartialEq, Eq, Structural)]
pub enum Instruction {
    /// ```text
    /// 0000 X X X XXXXXXXXX
    /// op   N Z P offset9
    /// ```
    Br(bool, bool, bool, u16),
    /// ```text
    /// 0001 XXX XXX 000 XXX
    /// op   dr  sr1     sr2
    /// ```
    Add1(Register, Register, Register),
    /// ```text
    /// 0001 XXX XXX 1 XXXXX
    /// op   dr  sr1   imm5
    /// ```
    Add2(Register, Register, u16),
    /// ```text
    /// 0010 XXX XXXXXXXXX
    /// op   dr  offset9
    /// ```
    Ld(Register, u16),
    /// ```text
    /// 0011 XXX XXXXXXXXX
    /// op   sr  offset9
    /// ```
    St(Register, u16),
    /// ```text
    /// 0100 1 XXXXXXXXXXX
    /// op     offset11
    /// ```
    Jsr(u16),
    /// ```text
    /// 0100 000 XXX    000000
    /// op       base_r
    /// ```
    Jsrr(Register),
    /// ```text
    /// 0101 XXX XXX 000 XXX
    /// op   dr  sr1     sr2
    /// ```
    And1(Register, Register, Register),
    /// ```text
    /// 0101 XXX XXX 1 XXXXX
    /// op   dr  sr1   imm5
    /// ```
    And2(Register, Register, u16),
    /// ```text
    /// 0110 XXX XXX    XXXXXX
    /// op   dr  base_r offset6
    /// ```
    Ldr(Register, Register, u16),
    /// ```text
    /// 0111 XXX XXX    XXXXXX
    /// op   sr  base_r offset6
    /// ```
    Str(Register, Register, u16),
    /// ```text
    /// 1000 XXXXXXXXXXXX
    /// op
    /// ```
    Rti,
    /// ```text
    /// 1001 XXX XXX 111111
    /// op   dr  sr
    /// ```
    Not(Register, Register),
    /// ```text
    /// 1010 XXX XXXXXXXXX
    /// op   dr  offset9
    /// ```
    Ldi(Register, u16),
    /// ```text
    /// 1011 XXX XXXXXXXXX
    /// op   sr  offset9
    /// ```
    Sti(Register, u16),
    /// ```text
    /// 1100 000 XXX    000000
    /// op       base_r
    /// ```
    Jmp(Register),
    /// ```text
    /// 1101 XXXXXXXXXXXX
    /// op
    /// ```
    Res,
    /// ```text
    /// 1110 XXX XXXXXXXXX
    /// op   dr  offset9
    /// ```
    Lea(Register, u16),
    /// ```text
    /// 1111 0000 XXXXXXXX
    /// op        trap
    /// ```
    Trap(TrapVect),
}

impl Instruction {
    /// Every register field names a general-purpose register and every
    /// immediate fits its field width.
    pub open spec fn wf(self) -> bool {
        match self {
            Instruction::Br(_, _, _, off9) => off9 < 0x200,
            Instruction::Add1(dr, sr1, sr2) => dr.is_gp() && sr1.is_gp() && sr2.is_gp(),
            Instruction::Add2(dr, sr1, imm5) => dr.is_gp() && sr1.is_gp() && imm5 < 0x20,
            Instruction::Ld(dr, off9) => dr.is_gp() && off9 < 0x200,
            Instruction::St(sr, off9) => sr.is_gp() && off9 < 0x200,
            Instruction::Jsr(off11) => off11 < 0x800,
            Instruction::Jsrr(base) => base.is_gp(),
            Instruction::And1(dr, sr1, sr2) => dr.is_gp() && sr1.is_gp() && sr2.is_gp(),
            Instruction::And2(dr, sr1, imm5) => dr.is_gp() && sr1.is_gp() && imm5 < 0x20,
            Instruction::Ldr(dr, base, off6) => dr.is_gp() && base.is_gp() && off6 < 0x40,
            Instruction::Str(sr, base, off6) => sr.is_gp() && base.is_gp() && off6 < 0x40,
            Instruction::Rti => true,
            Instruction::Not(dr, sr) => dr.is_gp() && sr.is_gp(),
            Instruction::Ldi(dr, off9) => dr.is_gp() && off9 < 0x200,
            Instruction::Sti(sr, off9) => sr.is_gp() && off9 < 0x200,
            Instruction::Jmp(base) => base.is_gp(),
            Instruction::Res => true,
            Instruction::Lea(dr, off9) => dr.is_gp() && off9 < 0x200,
            Instruction::Trap(_) => true,
        }
    }

    /// The 16-bit word this instruction encodes to.
    pub open spec fn spec_bytecode(self) -> u16 {
        match self {
            Instruction::Br(n, z, p, off9) => (if n {
                0x0800u16
            } else {
                0u16
            }) | (if z {
                0x0400u16
            } else {
                0u16
            }) | (if p {
                0x0200u16
            } else {
                0u16
            }) | off9,
            Instruction::Add1(dr, sr1, sr2) => 0x1000u16 | (dr.code() << 9u16) | (sr1.code()
                << 6u16) | sr2.code(),
            Instruction::Add2(dr, sr1, imm5) => 0x1000u16 | (dr.code() << 9u16) | (sr1.code()
                << 6u16) | 0x20u16 | imm5,
            Instruction::Ld(dr, off9) => 0x2000u16 | (dr.code() << 9u16) | off9,
            Instruction::St(sr, off9) => 0x3000u16 | (sr.code() << 9u16) | off9,
            Instruction::Jsr(off11) => 0x4800u16 | off11,
            Instruction::Jsrr(base) => 0x4000u16 | (base.code() << 6u16),
            Instruction::And1(dr, sr1, sr2) => 0x5000u16 | (dr.code() << 9u16) | (sr1.code()
                << 6u16) | sr2.code(),
            Instruction::And2(dr, sr1, imm5) => 0x5000u16 | (dr.code() << 9u16) | (sr1.code()
                << 6u16) | 0x20u16 | imm5,
            Instruction::Ldr(dr, base, off6) => 0x6000u16 | (dr.code() << 9u16) | (base.code()
                << 6u16) | off6,
            Instruction::Str(sr, base, off6) => 0x7000u16 | (sr.code() << 9u16) | (base.code()
                << 6u16) | off6,
            Instruction::Rti => 0x8000u16,
            Instruction::Not(dr, sr) => 0x9000u16 | (dr.code() << 9u16) | (sr.code() << 6u16)
                | 0x3Fu16,
            Instruction::Ldi(dr, off9) => 0xA000u16 | (dr.code() << 9u16) | off9,
            Instruction::Sti(sr, off9) => 0xB000u16 | (sr.code() << 9u16) | off9,
            Instruction::Jmp(base) => 0xC000u16 | (base.code() << 6u16),
            Instruction::Res => 0xD000u16,
            Instruction::Lea(dr, off9) => 0xE000u16 | (dr.code() << 9u16) | off9,
            Instruction::Trap(t) => 0xF000u16 | t.vect(),
        }
    }

    /// Encode this instruction as its 16-bit word.
    pub fn bytecode(&self) -> (r: u16)
        requires
            self.wf(),
        ensures
            r == self.spec_bytecode(),
    {
        match self {
            Instruction::Br(n, z, p, off9) => {
                let nb: u16 = if *n {
                    0x0800
                } else {
                    0
                };
                let zb: u16 = if *z {
                    0x0400
                } else {
                    0
                };
                let pb: u16 = if *p {
                    0x0200
                } else {
                    0
                };
                nb | zb | pb | *off9
            },
            Instruction::Add1(dr, sr1, sr2) => {
                let mut out: u16 = 0x1000;
                out |= dr.bytecode() << 9u16;
                out |= sr1.bytecode() << 6u16;
                out |= sr2.bytecode();
                out
            },
            Instruction::Add2(dr, sr1, imm5) => {
                let mut out: u16 = 0x1000;
                out |= dr.bytecode() << 9u16;
                out |= sr1.bytecode() << 6u16;
                out |= 0x20;
                out |= *imm5;
                out
            },
            Instruction::Ld(dr, off9) => {
                let mut out: u16 = 0x2000;
                out |= dr.bytecode() << 9u16;
                out |= *off9;
                out
            },
            Instruction::St(sr, off9) => {
                let mut out: u16 = 0x3000;
                out |= sr.bytecode() << 9u16;
                out |= *off9;
                out
            },
            Instruction::Jsr(off11) => {
                let mut out: u16 = 0x4800;
                out |= *off11;
                out
            },
            Instruction::Jsrr(base) => {
                let mut out: u16 = 0x4000;
                out |= base.bytecode() << 6u16;
                out
            },
            Instruction::And1(dr, sr1, sr2) => {
                let mut out: u16 = 0x5000;
                out |= dr.bytecode() << 9u16;
                out |= sr1.bytecode() << 6u16;
                out |= sr2.bytecode();
                out
            },
            Instruction::And2(dr, sr1, imm5) => {
                let mut out: u16 = 0x5000;
                out |= dr.bytecode() << 9u16;
                out |= sr1.bytecode() << 6u16;
                out |= 0x20;
                out |= *imm5;
                out
            },
            Instruction::Ldr(dr, base, off6) => {
                let mut out: u16 = 0x6000;
                out |= dr.bytecode() << 9u16;
                out |= base.bytecode() << 6u16;
                out |= *off6;
                out
            },
            Instruction::Str(sr, base, off6) => {
                let mut out: u16 = 0x7000;
                out |= sr.bytecode() << 9u16;
                out |= base.bytecode() << 6u16;
                out |= *off6;
                out
            },
            Instruction::Rti => 0x8000,
            Instruction::Not(dr, sr) => {
                let mut out: u16 = 0x9000;
                out |= dr.bytecode() << 9u16;
                out |= sr.bytecode() << 6u16;
                out |= 0x3F;
                out
            },
            Instruction::Ldi(dr, off9) => {
                let mut out: u16 = 0xA000;
                out |= dr.bytecode() << 9u16;
                out |= *off9;
                out
            },
            Instruction::Sti(sr, off9) => {
                let mut out: u16 = 0xB000;
                out |= sr.bytecode() << 9u16;
                out |= *off9;
                out
            },
            Instruction::Jmp(base) => {
                let mut out: u16 = 0xC000;
                out |= base.bytecode() << 6u16;
                out
            },
            Instruction::Res => 0xD000,
            Instruction::Lea(dr, off9) => {
                let mut out: u16 = 0xE000;
                out |= dr.bytecode() << 9u16;
                out |= *off9;
                out
            },
            Instruction::Trap(t) => {
                let mut out: u16 = 0xF000;
                out |= t.bytecode();
                out
            },
        }
    }
}

} // verus!
