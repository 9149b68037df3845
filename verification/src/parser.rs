//! The assembly parser: mnemonics, operand shapes, single instructions
//! and whole programs.
//!
//! A source file is lowered, split into lines, and each line tokenized
//! (comments run from `;` to end of line). A non-blank line is one
//! instruction: a mnemonic followed by its operands, with commas between
//! operands. Immediates wider than their field are cut to the field
//! width.

use vstd::prelude::*;

verus! {

use vstd::string::StringSliceAdditionalSpecFns;
use crate::isa::{Instruction, Register, TrapVect, spec_register};
use crate::lexer::{
    spec_tokenize,
    spec_parse_number,
    views,
    tokenize,
    parse_number,
    lower,
    split_lines,
    spec_lower,
    spec_lines,
    lemma_push_concat,
};
use crate::Program;

/// Why a line failed to parse.
#[derive(Clone, Copy, Debug, PartialEq, Eq, Structural)]
pub enum ParseErrorKind {
    /// The first token names no instruction.
    UnknownMnemonic,
    /// The operand tokens do not fit the mnemonic's shape.
    BadOperands,
    /// A token should have been a register `r0`..`r7` but was not.
    BadRegister,
    /// A token should have been a `#<decimal>` or `x<hex>` number that
    /// fits 16 bits but was not.
    BadNumber,
    /// The token after `trap` names no trap.
    BadTrapName,
}

/// A parse diagnostic: the zero-based source line it arose on and what
/// went wrong there.
#[derive(Clone, Copy, Debug, PartialEq, Eq, Structural)]
pub struct ParseError {
    pub line: usize,
    pub kind: ParseErrorKind,
}

/// A mnemonic of the assembly language.
#[derive(Clone, Copy, Debug, PartialEq, Eq, Structural)]
pub enum Op {
    BrNZ,
    BrNP,
    BrZP,
    BrN,
    BrZ,
    BrP,
    Add,
    Ld,
    St,
    Jsr,
    Jsrr,
    And,
    Ldr,
    Str,
    Rti,
    Not,
    Ldi,
    Sti,
    Jmp,
    Res,
    Lea,
    Trap,
}

/// The mnemonic a word token names, if any. Tokens are lowercase ASCII
/// bytes: `brnz` is 98 114 110 122, and so on.
pub open spec fn spec_op_of(w: Seq<u8>) -> Option<Op> {
    if w.len() == 4 && w[0] == 98 && w[1] == 114 && w[2] == 110 && w[3] == 122 {
        Some(Op::BrNZ)
    } else if w.len() == 4 && w[0] == 98 && w[1] == 114 && w[2] == 110 && w[3] == 112 {
        Some(Op::BrNP)
    } else if w.len() == 4 && w[0] == 98 && w[1] == 114 && w[2] == 122 && w[3] == 112 {
        Some(Op::BrZP)
    } else if w.len() == 3 && w[0] == 98 && w[1] == 114 && w[2] == 110 {
        Some(Op::BrN)
    } else if w.len() == 3 && w[0] == 98 && w[1] == 114 && w[2] == 122 {
        Some(Op::BrZ)
    } else if w.len() == 3 && w[0] == 98 && w[1] == 114 && w[2] == 112 {
        Some(Op::BrP)
    } else if w.len() == 3 && w[0] == 97 && w[1] == 100 && w[2] == 100 {
        Some(Op::Add)
    } else if w.len() == 2 && w[0] == 108 && w[1] == 100 {
        Some(Op::Ld)
    } else if w.len() == 2 && w[0] == 115 && w[1] == 116 {
        Some(Op::St)
    } else if w.len() == 3 && w[0] == 106 && w[1] == 115 && w[2] == 114 {
        Some(Op::Jsr)
    } else if w.len() == 4 && w[0] == 106 && w[1] == 115 && w[2] == 114 && w[3] == 114 {
        Some(Op::Jsrr)
    } else if w.len() == 3 && w[0] == 97 && w[1] == 110 && w[2] == 100 {
        Some(Op::And)
    } else if w.len() == 3 && w[0] == 108 && w[1] == 100 && w[2] == 114 {
        Some(Op::Ldr)
    } else if w.len() == 3 && w[0] == 115 && w[1] == 116 && w[2] == 114 {
        Some(Op::Str)
    } else if w.len() == 3 && w[0] == 114 && w[1] == 116 && w[2] == 105 {
        Some(Op::Rti)
    } else if w.len() == 3 && w[0] == 110 && w[1] == 111 && w[2] == 116 {
        Some(Op::Not)
    } else if w.len() == 3 && w[0] == 108 && w[1] == 100 && w[2] == 105 {
        Some(Op::Ldi)
    } else if w.len() == 3 && w[0] == 115 && w[1] == 116 && w[2] == 105 {
        Some(Op::Sti)
    } else if w.len() == 3 && w[0] == 106 && w[1] == 109 && w[2] == 112 {
        Some(Op::Jmp)
    } else if w.len() == 3 && w[0] == 114 && w[1] == 101 && w[2] == 115 {
        Some(Op::Res)
    } else if w.len() == 3 && w[0] == 108 && w[1] == 101 && w[2] == 97 {
        Some(Op::Lea)
    } else if w.len() == 4 && w[0] == 116 && w[1] == 114 && w[2] == 97 && w[3] == 112 {
        Some(Op::Trap)
    } else {
        None
    }
}

/// Classify a word token as a mnemonic.
pub fn op_of(w: &[u8]) -> (r: Option<Op>)
    ensures
        r == spec_op_of(w@),
{
    if w.len() == 4 && w[0] == 98 && w[1] == 114 && w[2] == 110 && w[3] == 122 {
        Some(Op::BrNZ)
    } else if w.len() == 4 && w[0] == 98 && w[1] == 114 && w[2] == 110 && w[3] == 112 {
        Some(Op::BrNP)
    } else if w.len() == 4 && w[0] == 98 && w[1] == 114 && w[2] == 122 && w[3] == 112 {
        Some(Op::BrZP)
    } else if w.len() == 3 && w[0] == 98 && w[1] == 114 && w[2] == 110 {
        Some(Op::BrN)
    } else if w.len() == 3 && w[0] == 98 && w[1] == 114 && w[2] == 122 {
        Some(Op::BrZ)
    } else if w.len() == 3 && w[0] == 98 && w[1] == 114 && w[2] == 112 {
        Some(Op::BrP)
    } else if w.len() == 3 && w[0] == 97 && w[1] == 100 && w[2] == 100 {
        Some(Op::Add)
    } else if w.len() == 2 && w[0] == 108 && w[1] == 100 {
        Some(Op::Ld)
    } else if w.len() == 2 && w[0] == 115 && w[1] == 116 {
        Some(Op::St)
    } else if w.len() == 3 && w[0] == 106 && w[1] == 115 && w[2] == 114 {
        Some(Op::Jsr)
    } else if w.len() == 4 && w[0] == 106 && w[1] == 115 && w[2] == 114 && w[3] == 114 {
        Some(Op::Jsrr)
    } else if w.len() == 3 && w[0] == 97 && w[1] == 110 && w[2] == 100 {
        Some(Op::And)
    } else if w.len() == 3 && w[0] == 108 && w[1] == 100 && w[2] == 114 {
        Some(Op::Ldr)
    } else if w.len() == 3 && w[0] == 115 && w[1] == 116 && w[2] == 114 {
        Some(Op::Str)
    } else if w.len() == 3 && w[0] == 114 && w[1] == 116 && w[2] == 105 {
        Some(Op::Rti)
    } else if w.len() == 3 && w[0] == 110 && w[1] == 111 && w[2] == 116 {
        Some(Op::Not)
    } else if w.len() == 3 && w[0] == 108 && w[1] == 100 && w[2] == 105 {
        Some(Op::Ldi)
    } else if w.len() == 3 && w[0] == 115 && w[1] == 116 && w[2] == 105 {
        Some(Op::Sti)
    } else if w.len() == 3 && w[0] == 106 && w[1] == 109 && w[2] == 112 {
        Some(Op::Jmp)
    } else if w.len() == 3 && w[0] == 114 && w[1] == 101 && w[2] == 115 {
        Some(Op::Res)
    } else if w.len() == 3 && w[0] == 108 && w[1] == 101 && w[2] == 97 {
        Some(Op::Lea)
    } else if w.len() == 4 && w[0] == 116 && w[1] == 114 && w[2] == 97 && w[3] == 112 {
        Some(Op::Trap)
    } else {
        None
    }
}

/// The trap a trap-name token names, if any: `tgetc`, `toutc`, `tputs`,
/// `tin`, `tputsp`, `thalt`, `tinu16` or `toutu16`, as ASCII bytes.
pub open spec fn spec_trap_name(w: Seq<u8>) -> Option<TrapVect> {
    if w.len() == 5 && w[0] == 116 && w[1] == 103 && w[2] == 101 && w[3] == 116 && w[4] == 99 {
        Some(TrapVect::GetC)
    } else if w.len() == 5 && w[0] == 116 && w[1] == 111 && w[2] == 117 && w[3] == 116 && w[4] == 99 {
        Some(TrapVect::OutC)
    } else if w.len() == 5 && w[0] == 116 && w[1] == 112 && w[2] == 117 && w[3] == 116 && w[4] == 115 {
        Some(TrapVect::PutS)
    } else if w.len() == 3 && w[0] == 116 && w[1] == 105 && w[2] == 110 {
        Some(TrapVect::In)
    } else if w.len() == 6 && w[0] == 116 && w[1] == 112 && w[2] == 117 && w[3] == 116 && w[4] == 115 && w[5] == 112 {
        Some(TrapVect::PutSp)
    } else if w.len() == 5 && w[0] == 116 && w[1] == 104 && w[2] == 97 && w[3] == 108 && w[4] == 116 {
        Some(TrapVect::Halt)
    } else if w.len() == 6 && w[0] == 116 && w[1] == 105 && w[2] == 110 && w[3] == 117 && w[4] == 49 && w[5] == 54 {
        Some(TrapVect::InU16)
    } else if w.len() == 7 && w[0] == 116 && w[1] == 111 && w[2] == 117 && w[3] == 116 && w[4] == 117 && w[5] == 49 && w[6] == 54 {
        Some(TrapVect::OutU16)
    } else {
        None
    }
}

/// Classify a word token as a trap name.
pub fn trap_name(w: &[u8]) -> (r: Option<TrapVect>)
    ensures
        r == spec_trap_name(w@),
{
    if w.len() == 5 && w[0] == 116 && w[1] == 103 && w[2] == 101 && w[3] == 116 && w[4] == 99 {
        Some(TrapVect::GetC)
    } else if w.len() == 5 && w[0] == 116 && w[1] == 111 && w[2] == 117 && w[3] == 116 && w[4] == 99 {
        Some(TrapVect::OutC)
    } else if w.len() == 5 && w[0] == 116 && w[1] == 112 && w[2] == 117 && w[3] == 116 && w[4] == 115 {
        Some(TrapVect::PutS)
    } else if w.len() == 3 && w[0] == 116 && w[1] == 105 && w[2] == 110 {
        Some(TrapVect::In)
    } else if w.len() == 6 && w[0] == 116 && w[1] == 112 && w[2] == 117 && w[3] == 116 && w[4] == 115 && w[5] == 112 {
        Some(TrapVect::PutSp)
    } else if w.len() == 5 && w[0] == 116 && w[1] == 104 && w[2] == 97 && w[3] == 108 && w[4] == 116 {
        Some(TrapVect::Halt)
    } else if w.len() == 6 && w[0] == 116 && w[1] == 105 && w[2] == 110 && w[3] == 117 && w[4] == 49 && w[5] == 54 {
        Some(TrapVect::InU16)
    } else if w.len() == 7 && w[0] == 116 && w[1] == 111 && w[2] == 117 && w[3] == 116 && w[4] == 117 && w[5] == 49 && w[6] == 54 {
        Some(TrapVect::OutU16)
    } else {
        None
    }
}

/// Whether a word token is the `halt` shorthand for `trap thalt` (the
/// ASCII bytes 104 97 108 116).
pub open spec fn spec_is_halt(w: Seq<u8>) -> bool {
    w.len() == 4 && w[0] == 104 && w[1] == 97 && w[2] == 108 && w[3] == 116
}

/// Recognize the `halt` shorthand.
pub fn is_halt(w: &[u8]) -> (r: bool)
    ensures
        r == spec_is_halt(w@),
{
    w.len() == 4 && w[0] == 104 && w[1] == 97 && w[2] == 108 && w[3] == 116
}

/// The register a token names: an `r` (ASCII 114) followed by one digit
/// `0` through `7` (ASCII 48 through 55).
pub open spec fn spec_register_token(w: Seq<u8>) -> Option<Register> {
    if w.len() == 2 && w[0] == 114 && 48 <= w[1] <= 55 {
        Some(spec_register((w[1] - 48) as u16))
    } else {
        None
    }
}

/// Whether a token is the comma that separates operands.
pub open spec fn spec_is_comma(w: Seq<u8>) -> bool {
    w.len() == 1 && w[0] == 44
}

/// Classify a token as a register name.
pub fn register_token(w: &[u8]) -> (r: Option<Register>)
    ensures
        r == spec_register_token(w@),
        r matches Some(reg) ==> reg.is_gp(),
{
    if w.len() == 2 && w[0] == 114 && 48 <= w[1] && w[1] <= 55 {
        proof {
            crate::isa::lemma_register_code((w@[1] - 48) as u16);
        }
        Some(Register::from_code((w[1] - 48) as u16))
    } else {
        None
    }
}

/// Recognize the operand-separating comma.
pub fn is_comma(w: &[u8]) -> (r: bool)
    ensures
        r == spec_is_comma(w@),
{
    w.len() == 1 && w[0] == 44
}

/// A line of the shape `mn number`.
pub open spec fn spec_num_line(toks: Seq<Seq<u8>>) -> Option<u16> {
    if toks.len() == 2 {
        spec_parse_number(toks[1])
    } else {
        None
    }
}

/// A line of the shape `mn reg`.
pub open spec fn spec_reg_line(toks: Seq<Seq<u8>>) -> Option<Register> {
    if toks.len() == 2 {
        spec_register_token(toks[1])
    } else {
        None
    }
}

/// A line of the shape `mn reg, number`.
pub open spec fn spec_reg_num_line(toks: Seq<Seq<u8>>) -> Option<(Register, u16)> {
    if toks.len() == 4 && spec_is_comma(toks[2]) {
        match spec_register_token(toks[1]) {
            Some(r) => match spec_parse_number(toks[3]) {
                Some(v) => Some((r, v)),
                None => None,
            },
            None => None,
        }
    } else {
        None
    }
}

/// A line of the shape `mn reg, reg`.
pub open spec fn spec_reg_reg_line(toks: Seq<Seq<u8>>) -> Option<(Register, Register)> {
    if toks.len() == 4 && spec_is_comma(toks[2]) {
        match spec_register_token(toks[1]) {
            Some(a) => match spec_register_token(toks[3]) {
                Some(b) => Some((a, b)),
                None => None,
            },
            None => None,
        }
    } else {
        None
    }
}

/// A line of the shape `mn reg, reg, number`.
pub open spec fn spec_reg_reg_num_line(toks: Seq<Seq<u8>>) -> Option<(Register, Register, u16)> {
    if toks.len() == 6 && spec_is_comma(toks[2]) && spec_is_comma(toks[4]) {
        match spec_register_token(toks[1]) {
            Some(a) => match spec_register_token(toks[3]) {
                Some(b) => match spec_parse_number(toks[5]) {
                    Some(v) => Some((a, b, v)),
                    None => None,
                },
                None => None,
            },
            None => None,
        }
    } else {
        None
    }
}

/// A line of the shape `mn reg, reg, reg` or `mn reg, reg, number`: the
/// register form and the immediate form of add and and. The register
/// form is tried first.
pub open spec fn spec_arith_line(toks: Seq<Seq<u8>>, is_add: bool) -> Option<Instruction> {
    if toks.len() == 6 && spec_is_comma(toks[2]) && spec_is_comma(toks[4]) {
        match spec_register_token(toks[1]) {
            Some(d) => match spec_register_token(toks[3]) {
                Some(s1) => match spec_register_token(toks[5]) {
                    Some(s2) => Some(
                        if is_add {
                            Instruction::Add1(d, s1, s2)
                        } else {
                            Instruction::And1(d, s1, s2)
                        },
                    ),
                    None => match spec_parse_number(toks[5]) {
                        Some(v) => Some(
                            if is_add {
                                Instruction::Add2(d, s1, (v % 0x20) as u16)
                            } else {
                                Instruction::And2(d, s1, (v % 0x20) as u16)
                            },
                        ),
                        None => None,
                    },
                },
                None => None,
            },
            None => None,
        }
    } else {
        None
    }
}

/// The instruction a token sequence denotes, if any: the first token
/// names the mnemonic and the rest must fit its operand shape exactly.
pub open spec fn spec_parse_line(toks: Seq<Seq<u8>>) -> Option<Instruction> {
    if toks.len() == 0 {
        None
    } else {
        match spec_op_of(toks[0]) {
            Some(op) => match op {
                Op::BrNZ => spec_br_line(toks, true, true, false),
                Op::BrNP => spec_br_line(toks, true, false, true),
                Op::BrZP => spec_br_line(toks, false, true, true),
                Op::BrN => spec_br_line(toks, true, false, false),
                Op::BrZ => spec_br_line(toks, false, true, false),
                Op::BrP => spec_br_line(toks, false, false, true),
                Op::Add => spec_arith_line(toks, true),
                Op::And => spec_arith_line(toks, false),
                Op::Ld => match spec_reg_num_line(toks) {
                    Some((r, v)) => Some(Instruction::Ld(r, (v % 0x200) as u16)),
                    None => None,
                },
                Op::St => match spec_reg_num_line(toks) {
                    Some((r, v)) => Some(Instruction::St(r, (v % 0x200) as u16)),
                    None => None,
                },
                Op::Ldi => match spec_reg_num_line(toks) {
                    Some((r, v)) => Some(Instruction::Ldi(r, (v % 0x200) as u16)),
                    None => None,
                },
                Op::Sti => match spec_reg_num_line(toks) {
                    Some((r, v)) => Some(Instruction::Sti(r, (v % 0x200) as u16)),
                    None => None,
                },
                Op::Lea => match spec_reg_num_line(toks) {
                    Some((r, v)) => Some(Instruction::Lea(r, (v % 0x200) as u16)),
                    None => None,
                },
                Op::Ldr => match spec_reg_reg_num_line(toks) {
                    Some((a, b, v)) => Some(Instruction::Ldr(a, b, (v % 0x40) as u16)),
                    None => None,
                },
                Op::Str => match spec_reg_reg_num_line(toks) {
                    Some((a, b, v)) => Some(Instruction::Str(a, b, (v % 0x40) as u16)),
                    None => None,
                },
                Op::Not => match spec_reg_reg_line(toks) {
                    Some((a, b)) => Some(Instruction::Not(a, b)),
                    None => None,
                },
                Op::Jsr => match spec_num_line(toks) {
                    Some(v) => Some(Instruction::Jsr((v % 0x800) as u16)),
                    None => None,
                },
                Op::Jsrr => match spec_reg_line(toks) {
                    Some(r) => Some(Instruction::Jsrr(r)),
                    None => None,
                },
                Op::Jmp => match spec_reg_line(toks) {
                    Some(r) => Some(Instruction::Jmp(r)),
                    None => None,
                },
                Op::Rti => if toks.len() == 1 {
                    Some(Instruction::Rti)
                } else {
                    None
                },
                Op::Res => if toks.len() == 1 {
                    Some(Instruction::Res)
                } else {
                    None
                },
                Op::Trap => if toks.len() == 2 {
                    match spec_trap_name(toks[1]) {
                        Some(t) => Some(Instruction::Trap(t)),
                        None => None,
                    }
                } else {
                    None
                },
            },
            None => if spec_is_halt(toks[0]) && toks.len() == 1 {
                Some(Instruction::Trap(TrapVect::Halt))
            } else {
                None
            },
        }
    }
}

/// A branch line: `brXX number`, with the named flag bits.
pub open spec fn spec_br_line(toks: Seq<Seq<u8>>, n: bool, z: bool, p: bool) -> Option<
    Instruction,
> {
    match spec_num_line(toks) {
        Some(v) => Some(Instruction::Br(n, z, p, (v % 0x200) as u16)),
        None => None,
    }
}

/// Parse a `mn number` line body.
fn line_num(toks: &Vec<Vec<u8>>) -> (r: Option<u16>)
    ensures
        r == spec_num_line(views(toks@)),
{
    if toks.len() != 2 {
        return None;
    }
    proof {
        assert(views(toks@)[1] == toks@[1]@);
    }
    match parse_number(toks[1].as_slice()) {
        Ok(v) => Some(v),
        Err(_) => None,
    }
}

/// Parse a `mn reg` line body.
fn line_reg(toks: &Vec<Vec<u8>>) -> (r: Option<Register>)
    ensures
        r == spec_reg_line(views(toks@)),
        r matches Some(reg) ==> reg.is_gp(),
{
    if toks.len() != 2 {
        return None;
    }
    proof {
        assert(views(toks@)[1] == toks@[1]@);
    }
    register_token(toks[1].as_slice())
}

/// Parse a `mn reg, number` line body.
fn line_reg_num(toks: &Vec<Vec<u8>>) -> (r: Option<(Register, u16)>)
    ensures
        r == spec_reg_num_line(views(toks@)),
        r matches Some((reg, _)) ==> reg.is_gp(),
{
    if toks.len() != 4 {
        return None;
    }
    proof {
        assert(views(toks@)[1] == toks@[1]@);
        assert(views(toks@)[2] == toks@[2]@);
        assert(views(toks@)[3] == toks@[3]@);
    }
    if !is_comma(toks[2].as_slice()) {
        return None;
    }
    let reg = match register_token(toks[1].as_slice()) {
        Some(reg) => reg,
        None => {
            return None;
        },
    };
    match parse_number(toks[3].as_slice()) {
        Ok(v) => Some((reg, v)),
        Err(_) => None,
    }
}

/// Parse a `mn reg, reg` line body.
fn line_reg_reg(toks: &Vec<Vec<u8>>) -> (r: Option<(Register, Register)>)
    ensures
        r == spec_reg_reg_line(views(toks@)),
        r matches Some((a, b)) ==> a.is_gp() && b.is_gp(),
{
    if toks.len() != 4 {
        return None;
    }
    proof {
        assert(views(toks@)[1] == toks@[1]@);
        assert(views(toks@)[2] == toks@[2]@);
        assert(views(toks@)[3] == toks@[3]@);
    }
    if !is_comma(toks[2].as_slice()) {
        return None;
    }
    let a = match register_token(toks[1].as_slice()) {
        Some(reg) => reg,
        None => {
            return None;
        },
    };
    match register_token(toks[3].as_slice()) {
        Some(b) => Some((a, b)),
        None => None,
    }
}

/// Parse a `mn reg, reg, number` line body.
fn line_reg_reg_num(toks: &Vec<Vec<u8>>) -> (r: Option<(Register, Register, u16)>)
    ensures
        r == spec_reg_reg_num_line(views(toks@)),
        r matches Some((a, b, _)) ==> a.is_gp() && b.is_gp(),
{
    if toks.len() != 6 {
        return None;
    }
    proof {
        assert(views(toks@)[1] == toks@[1]@);
        assert(views(toks@)[2] == toks@[2]@);
        assert(views(toks@)[3] == toks@[3]@);
        assert(views(toks@)[4] == toks@[4]@);
        assert(views(toks@)[5] == toks@[5]@);
    }
    if !is_comma(toks[2].as_slice()) || !is_comma(toks[4].as_slice()) {
        return None;
    }
    let a = match register_token(toks[1].as_slice()) {
        Some(reg) => reg,
        None => {
            return None;
        },
    };
    let b = match register_token(toks[3].as_slice()) {
        Some(reg) => reg,
        None => {
            return None;
        },
    };
    match parse_number(toks[5].as_slice()) {
        Ok(v) => Some((a, b, v)),
        Err(_) => None,
    }
}

/// Parse an add or and line body: the register form first, then the
/// immediate form.
fn line_arith(toks: &Vec<Vec<u8>>, is_add: bool) -> (r: Option<Instruction>)
    ensures
        r == spec_arith_line(views(toks@), is_add),
        r matches Some(i) ==> i.wf(),
{
    if toks.len() != 6 {
        return None;
    }
    proof {
        assert(views(toks@)[1] == toks@[1]@);
        assert(views(toks@)[2] == toks@[2]@);
        assert(views(toks@)[3] == toks@[3]@);
        assert(views(toks@)[4] == toks@[4]@);
        assert(views(toks@)[5] == toks@[5]@);
    }
    if !is_comma(toks[2].as_slice()) || !is_comma(toks[4].as_slice()) {
        return None;
    }
    let d = match register_token(toks[1].as_slice()) {
        Some(reg) => reg,
        None => {
            return None;
        },
    };
    let s1 = match register_token(toks[3].as_slice()) {
        Some(reg) => reg,
        None => {
            return None;
        },
    };
    match register_token(toks[5].as_slice()) {
        Some(s2) => Some(
            if is_add {
                Instruction::Add1(d, s1, s2)
            } else {
                Instruction::And1(d, s1, s2)
            },
        ),
        None => match parse_number(toks[5].as_slice()) {
            Ok(v) => Some(
                if is_add {
                    Instruction::Add2(d, s1, v % 0x20)
                } else {
                    Instruction::And2(d, s1, v % 0x20)
                },
            ),
            Err(_) => None,
        },
    }
}

/// The diagnostic for a token sequence that parses as no instruction: a
/// first token that names no mnemonic, a bad trap name after `trap`, or
/// operands that do not fit the mnemonic's shape.
pub open spec fn spec_line_kind(toks: Seq<Seq<u8>>) -> ParseErrorKind {
    if toks.len() == 0 {
        ParseErrorKind::UnknownMnemonic
    } else {
        match spec_op_of(toks[0]) {
            Some(op) => if op == Op::Trap && toks.len() == 2 {
                ParseErrorKind::BadTrapName
            } else {
                ParseErrorKind::BadOperands
            },
            None => ParseErrorKind::UnknownMnemonic,
        }
    }
}

/// Parse the tokens of one line as an instruction.
pub fn parse_line(toks: &Vec<Vec<u8>>) -> (r: Result<Instruction, ParseErrorKind>)
    ensures
        match spec_parse_line(views(toks@)) {
            Some(i) => r == Ok::<Instruction, ParseErrorKind>(i),
            None => r == Err::<Instruction, ParseErrorKind>(spec_line_kind(views(toks@))),
        },
        r matches Ok(i) ==> i.wf(),
{
    if toks.len() == 0 {
        return Err(ParseErrorKind::UnknownMnemonic);
    }
    proof {
        assert(views(toks@)[0] == toks@[0]@);
    }
    let op = match op_of(toks[0].as_slice()) {
        Some(o) => o,
        None => {
            if is_halt(toks[0].as_slice()) && toks.len() == 1 {
                return Ok(Instruction::Trap(TrapVect::Halt));
            } else {
                return Err(ParseErrorKind::UnknownMnemonic);
            }
        },
    };
    match op {
        Op::BrNZ => br_line(toks, true, true, false),
        Op::BrNP => br_line(toks, true, false, true),
        Op::BrZP => br_line(toks, false, true, true),
        Op::BrN => br_line(toks, true, false, false),
        Op::BrZ => br_line(toks, false, true, false),
        Op::BrP => br_line(toks, false, false, true),
        Op::Add => match line_arith(toks, true) {
            Some(i) => Ok(i),
            None => Err(ParseErrorKind::BadOperands),
        },
        Op::And => match line_arith(toks, false) {
            Some(i) => Ok(i),
            None => Err(ParseErrorKind::BadOperands),
        },
        Op::Ld => match line_reg_num(toks) {
            Some((reg, v)) => Ok(Instruction::Ld(reg, v % 0x200)),
            None => Err(ParseErrorKind::BadOperands),
        },
        Op::St => match line_reg_num(toks) {
            Some((reg, v)) => Ok(Instruction::St(reg, v % 0x200)),
            None => Err(ParseErrorKind::BadOperands),
        },
        Op::Ldi => match line_reg_num(toks) {
            Some((reg, v)) => Ok(Instruction::Ldi(reg, v % 0x200)),
            None => Err(ParseErrorKind::BadOperands),
        },
        Op::Sti => match line_reg_num(toks) {
            Some((reg, v)) => Ok(Instruction::Sti(reg, v % 0x200)),
            None => Err(ParseErrorKind::BadOperands),
        },
        Op::Lea => match line_reg_num(toks) {
            Some((reg, v)) => Ok(Instruction::Lea(reg, v % 0x200)),
            None => Err(ParseErrorKind::BadOperands),
        },
        Op::Ldr => match line_reg_reg_num(toks) {
            Some((a, b, v)) => Ok(Instruction::Ldr(a, b, v % 0x40)),
            None => Err(ParseErrorKind::BadOperands),
        },
        Op::Str => match line_reg_reg_num(toks) {
            Some((a, b, v)) => Ok(Instruction::Str(a, b, v % 0x40)),
            None => Err(ParseErrorKind::BadOperands),
        },
        Op::Not => match line_reg_reg(toks) {
            Some((a, b)) => Ok(Instruction::Not(a, b)),
            None => Err(ParseErrorKind::BadOperands),
        },
        Op::Jsr => match line_num(toks) {
            Some(v) => Ok(Instruction::Jsr(v % 0x800)),
            None => Err(ParseErrorKind::BadOperands),
        },
        Op::Jsrr => match line_reg(toks) {
            Some(reg) => Ok(Instruction::Jsrr(reg)),
            None => Err(ParseErrorKind::BadOperands),
        },
        Op::Jmp => match line_reg(toks) {
            Some(reg) => Ok(Instruction::Jmp(reg)),
            None => Err(ParseErrorKind::BadOperands),
        },
        Op::Rti => if toks.len() == 1 {
            Ok(Instruction::Rti)
        } else {
            Err(ParseErrorKind::BadOperands)
        },
        Op::Res => if toks.len() == 1 {
            Ok(Instruction::Res)
        } else {
            Err(ParseErrorKind::BadOperands)
        },
        Op::Trap => if toks.len() == 2 {
            proof {
                assert(views(toks@)[1] == toks@[1]@);
            }
            match trap_name(toks[1].as_slice()) {
                Some(t) => Ok(Instruction::Trap(t)),
                None => Err(ParseErrorKind::BadTrapName),
            }
        } else {
            Err(ParseErrorKind::BadOperands)
        },
    }
}

/// Parse a branch line body with the named flag bits.
fn br_line(toks: &Vec<Vec<u8>>, n: bool, z: bool, p: bool) -> (r: Result<
    Instruction,
    ParseErrorKind,
>)
    ensures
        match spec_br_line(views(toks@), n, z, p) {
            Some(i) => r == Ok::<Instruction, ParseErrorKind>(i),
            None => r == Err::<Instruction, ParseErrorKind>(ParseErrorKind::BadOperands),
        },
        r matches Ok(i) ==> i.wf(),
{
    match line_num(toks) {
        Some(v) => Ok(Instruction::Br(n, z, p, v % 0x200)),
        None => Err(ParseErrorKind::BadOperands),
    }
}

/// Parse a line as a branch instruction.
pub fn parse_br(s: &[u8]) -> (r: Result<Instruction, ParseError>)
    ensures
        match spec_parse_line(spec_tokenize(s@)) {
            Some(i) => if i is Br {
                r == Ok::<Instruction, ParseError>(i)
            } else {
                r == Err::<Instruction, ParseError>(
                    (ParseError { line: 0, kind: ParseErrorKind::BadOperands }),
                )
            },
            None => r == Err::<Instruction, ParseError>(
                (ParseError { line: 0, kind: spec_line_kind(spec_tokenize(s@)) }),
            ),
        },
{
    let toks = tokenize(s);
    match parse_line(&toks) {
        Ok(i) => {
            if matches!(i, Instruction::Br(..)) {
                Ok(i)
            } else {
                Err(ParseError { line: 0, kind: ParseErrorKind::BadOperands })
            }
        },
        Err(kind) => Err(ParseError { line: 0, kind }),
    }
}

/// Parse a line as an add (either form) instruction.
pub fn parse_add(s: &[u8]) -> (r: Result<Instruction, ParseError>)
    ensures
        match spec_parse_line(spec_tokenize(s@)) {
            Some(i) => if i is Add1 || i is Add2 {
                r == Ok::<Instruction, ParseError>(i)
            } else {
                r == Err::<Instruction, ParseError>(
                    (ParseError { line: 0, kind: ParseErrorKind::BadOperands }),
                )
            },
            None => r == Err::<Instruction, ParseError>(
                (ParseError { line: 0, kind: spec_line_kind(spec_tokenize(s@)) }),
            ),
        },
{
    let toks = tokenize(s);
    match parse_line(&toks) {
        Ok(i) => {
            if matches!(i, Instruction::Add1(..) | Instruction::Add2(..)) {
                Ok(i)
            } else {
                Err(ParseError { line: 0, kind: ParseErrorKind::BadOperands })
            }
        },
        Err(kind) => Err(ParseError { line: 0, kind }),
    }
}

/// Parse a line as a register-form add instruction.
pub fn parse_add1(s: &[u8]) -> (r: Result<Instruction, ParseError>)
    ensures
        match spec_parse_line(spec_tokenize(s@)) {
            Some(i) => if i is Add1 {
                r == Ok::<Instruction, ParseError>(i)
            } else {
                r == Err::<Instruction, ParseError>(
                    (ParseError { line: 0, kind: ParseErrorKind::BadOperands }),
                )
            },
            None => r == Err::<Instruction, ParseError>(
                (ParseError { line: 0, kind: spec_line_kind(spec_tokenize(s@)) }),
            ),
        },
{
    let toks = tokenize(s);
    match parse_line(&toks) {
        Ok(i) => {
            if matches!(i, Instruction::Add1(..)) {
                Ok(i)
            } else {
                Err(ParseError { line: 0, kind: ParseErrorKind::BadOperands })
            }
        },
        Err(kind) => Err(ParseError { line: 0, kind }),
    }
}

/// Parse a line as an immediate-form add instruction.
pub fn parse_add2(s: &[u8]) -> (r: Result<Instruction, ParseError>)
    ensures
        match spec_parse_line(spec_tokenize(s@)) {
            Some(i) => if i is Add2 {
                r == Ok::<Instruction, ParseError>(i)
            } else {
                r == Err::<Instruction, ParseError>(
                    (ParseError { line: 0, kind: ParseErrorKind::BadOperands }),
                )
            },
            None => r == Err::<Instruction, ParseError>(
                (ParseError { line: 0, kind: spec_line_kind(spec_tokenize(s@)) }),
            ),
        },
{
    let toks = tokenize(s);
    match parse_line(&toks) {
        Ok(i) => {
            if matches!(i, Instruction::Add2(..)) {
                Ok(i)
            } else {
                Err(ParseError { line: 0, kind: ParseErrorKind::BadOperands })
            }
        },
        Err(kind) => Err(ParseError { line: 0, kind }),
    }
}

/// Parse a line as a PC-relative load instruction.
pub fn parse_ld(s: &[u8]) -> (r: Result<Instruction, ParseError>)
    ensures
        match spec_parse_line(spec_tokenize(s@)) {
            Some(i) => if i is Ld {
                r == Ok::<Instruction, ParseError>(i)
            } else {
                r == Err::<Instruction, ParseError>(
                    (ParseError { line: 0, kind: ParseErrorKind::BadOperands }),
                )
            },
            None => r == Err::<Instruction, ParseError>(
                (ParseError { line: 0, kind: spec_line_kind(spec_tokenize(s@)) }),
            ),
        },
{
    let toks = tokenize(s);
    match parse_line(&toks) {
        Ok(i) => {
            if matches!(i, Instruction::Ld(..)) {
                Ok(i)
            } else {
                Err(ParseError { line: 0, kind: ParseErrorKind::BadOperands })
            }
        },
        Err(kind) => Err(ParseError { line: 0, kind }),
    }
}

/// Parse a line as a PC-relative store instruction.
pub fn parse_st(s: &[u8]) -> (r: Result<Instruction, ParseError>)
    ensures
        match spec_parse_line(spec_tokenize(s@)) {
            Some(i) => if i is St {
                r == Ok::<Instruction, ParseError>(i)
            } else {
                r == Err::<Instruction, ParseError>(
                    (ParseError { line: 0, kind: ParseErrorKind::BadOperands }),
                )
            },
            None => r == Err::<Instruction, ParseError>(
                (ParseError { line: 0, kind: spec_line_kind(spec_tokenize(s@)) }),
            ),
        },
{
    let toks = tokenize(s);
    match parse_line(&toks) {
        Ok(i) => {
            if matches!(i, Instruction::St(..)) {
                Ok(i)
            } else {
                Err(ParseError { line: 0, kind: ParseErrorKind::BadOperands })
            }
        },
        Err(kind) => Err(ParseError { line: 0, kind }),
    }
}

/// Parse a line as a long subroutine jump instruction.
pub fn parse_jsr(s: &[u8]) -> (r: Result<Instruction, ParseError>)
    ensures
        match spec_parse_line(spec_tokenize(s@)) {
            Some(i) => if i is Jsr {
                r == Ok::<Instruction, ParseError>(i)
            } else {
                r == Err::<Instruction, ParseError>(
                    (ParseError { line: 0, kind: ParseErrorKind::BadOperands }),
                )
            },
            None => r == Err::<Instruction, ParseError>(
                (ParseError { line: 0, kind: spec_line_kind(spec_tokenize(s@)) }),
            ),
        },
{
    let toks = tokenize(s);
    match parse_line(&toks) {
        Ok(i) => {
            if matches!(i, Instruction::Jsr(..)) {
                Ok(i)
            } else {
                Err(ParseError { line: 0, kind: ParseErrorKind::BadOperands })
            }
        },
        Err(kind) => Err(ParseError { line: 0, kind }),
    }
}

/// Parse a line as a register-indirect subroutine jump instruction.
pub fn parse_jsrr(s: &[u8]) -> (r: Result<Instruction, ParseError>)
    ensures
        match spec_parse_line(spec_tokenize(s@)) {
            Some(i) => if i is Jsrr {
                r == Ok::<Instruction, ParseError>(i)
            } else {
                r == Err::<Instruction, ParseError>(
                    (ParseError { line: 0, kind: ParseErrorKind::BadOperands }),
                )
            },
            None => r == Err::<Instruction, ParseError>(
                (ParseError { line: 0, kind: spec_line_kind(spec_tokenize(s@)) }),
            ),
        },
{
    let toks = tokenize(s);
    match parse_line(&toks) {
        Ok(i) => {
            if matches!(i, Instruction::Jsrr(..)) {
                Ok(i)
            } else {
                Err(ParseError { line: 0, kind: ParseErrorKind::BadOperands })
            }
        },
        Err(kind) => Err(ParseError { line: 0, kind }),
    }
}

/// Parse a line as an and (either form) instruction.
pub fn parse_and(s: &[u8]) -> (r: Result<Instruction, ParseError>)
    ensures
        match spec_parse_line(spec_tokenize(s@)) {
            Some(i) => if i is And1 || i is And2 {
                r == Ok::<Instruction, ParseError>(i)
            } else {
                r == Err::<Instruction, ParseError>(
                    (ParseError { line: 0, kind: ParseErrorKind::BadOperands }),
                )
            },
            None => r == Err::<Instruction, ParseError>(
                (ParseError { line: 0, kind: spec_line_kind(spec_tokenize(s@)) }),
            ),
        },
{
    let toks = tokenize(s);
    match parse_line(&toks) {
        Ok(i) => {
            if matches!(i, Instruction::And1(..) | Instruction::And2(..)) {
                Ok(i)
            } else {
                Err(ParseError { line: 0, kind: ParseErrorKind::BadOperands })
            }
        },
        Err(kind) => Err(ParseError { line: 0, kind }),
    }
}

/// Parse a line as a register-form and instruction.
pub fn parse_and1(s: &[u8]) -> (r: Result<Instruction, ParseError>)
    ensures
        match spec_parse_line(spec_tokenize(s@)) {
            Some(i) => if i is And1 {
                r == Ok::<Instruction, ParseError>(i)
            } else {
                r == Err::<Instruction, ParseError>(
                    (ParseError { line: 0, kind: ParseErrorKind::BadOperands }),
                )
            },
            None => r == Err::<Instruction, ParseError>(
                (ParseError { line: 0, kind: spec_line_kind(spec_tokenize(s@)) }),
            ),
        },
{
    let toks = tokenize(s);
    match parse_line(&toks) {
        Ok(i) => {
            if matches!(i, Instruction::And1(..)) {
                Ok(i)
            } else {
                Err(ParseError { line: 0, kind: ParseErrorKind::BadOperands })
            }
        },
        Err(kind) => Err(ParseError { line: 0, kind }),
    }
}

/// Parse a line as an immediate-form and instruction.
pub fn parse_and2(s: &[u8]) -> (r: Result<Instruction, ParseError>)
    ensures
        match spec_parse_line(spec_tokenize(s@)) {
            Some(i) => if i is And2 {
                r == Ok::<Instruction, ParseError>(i)
            } else {
                r == Err::<Instruction, ParseError>(
                    (ParseError { line: 0, kind: ParseErrorKind::BadOperands }),
                )
            },
            None => r == Err::<Instruction, ParseError>(
                (ParseError { line: 0, kind: spec_line_kind(spec_tokenize(s@)) }),
            ),
        },
{
    let toks = tokenize(s);
    match parse_line(&toks) {
        Ok(i) => {
            if matches!(i, Instruction::And2(..)) {
                Ok(i)
            } else {
                Err(ParseError { line: 0, kind: ParseErrorKind::BadOperands })
            }
        },
        Err(kind) => Err(ParseError { line: 0, kind }),
    }
}

/// Parse a line as a base-plus-offset load instruction.
pub fn parse_ldr(s: &[u8]) -> (r: Result<Instruction, ParseError>)
    ensures
        match spec_parse_line(spec_tokenize(s@)) {
            Some(i) => if i is Ldr {
                r == Ok::<Instruction, ParseError>(i)
            } else {
                r == Err::<Instruction, ParseError>(
                    (ParseError { line: 0, kind: ParseErrorKind::BadOperands }),
                )
            },
            None => r == Err::<Instruction, ParseError>(
                (ParseError { line: 0, kind: spec_line_kind(spec_tokenize(s@)) }),
            ),
        },
{
    let toks = tokenize(s);
    match parse_line(&toks) {
        Ok(i) => {
            if matches!(i, Instruction::Ldr(..)) {
                Ok(i)
            } else {
                Err(ParseError { line: 0, kind: ParseErrorKind::BadOperands })
            }
        },
        Err(kind) => Err(ParseError { line: 0, kind }),
    }
}

/// Parse a line as a base-plus-offset store instruction.
pub fn parse_str(s: &[u8]) -> (r: Result<Instruction, ParseError>)
    ensures
        match spec_parse_line(spec_tokenize(s@)) {
            Some(i) => if i is Str {
                r == Ok::<Instruction, ParseError>(i)
            } else {
                r == Err::<Instruction, ParseError>(
                    (ParseError { line: 0, kind: ParseErrorKind::BadOperands }),
                )
            },
            None => r == Err::<Instruction, ParseError>(
                (ParseError { line: 0, kind: spec_line_kind(spec_tokenize(s@)) }),
            ),
        },
{
    let toks = tokenize(s);
    match parse_line(&toks) {
        Ok(i) => {
            if matches!(i, Instruction::Str(..)) {
                Ok(i)
            } else {
                Err(ParseError { line: 0, kind: ParseErrorKind::BadOperands })
            }
        },
        Err(kind) => Err(ParseError { line: 0, kind }),
    }
}

/// Parse a line as a return-from-interrupt instruction.
pub fn parse_rti(s: &[u8]) -> (r: Result<Instruction, ParseError>)
    ensures
        match spec_parse_line(spec_tokenize(s@)) {
            Some(i) => if i is Rti {
                r == Ok::<Instruction, ParseError>(i)
            } else {
                r == Err::<Instruction, ParseError>(
                    (ParseError { line: 0, kind: ParseErrorKind::BadOperands }),
                )
            },
            None => r == Err::<Instruction, ParseError>(
                (ParseError { line: 0, kind: spec_line_kind(spec_tokenize(s@)) }),
            ),
        },
{
    let toks = tokenize(s);
    match parse_line(&toks) {
        Ok(i) => {
            if matches!(i, Instruction::Rti) {
                Ok(i)
            } else {
                Err(ParseError { line: 0, kind: ParseErrorKind::BadOperands })
            }
        },
        Err(kind) => Err(ParseError { line: 0, kind }),
    }
}

/// Parse a line as a complement instruction.
pub fn parse_not(s: &[u8]) -> (r: Result<Instruction, ParseError>)
    ensures
        match spec_parse_line(spec_tokenize(s@)) {
            Some(i) => if i is Not {
                r == Ok::<Instruction, ParseError>(i)
            } else {
                r == Err::<Instruction, ParseError>(
                    (ParseError { line: 0, kind: ParseErrorKind::BadOperands }),
                )
            },
            None => r == Err::<Instruction, ParseError>(
                (ParseError { line: 0, kind: spec_line_kind(spec_tokenize(s@)) }),
            ),
        },
{
    let toks = tokenize(s);
    match parse_line(&toks) {
        Ok(i) => {
            if matches!(i, Instruction::Not(..)) {
                Ok(i)
            } else {
                Err(ParseError { line: 0, kind: ParseErrorKind::BadOperands })
            }
        },
        Err(kind) => Err(ParseError { line: 0, kind }),
    }
}

/// Parse a line as an indirect load instruction.
pub fn parse_ldi(s: &[u8]) -> (r: Result<Instruction, ParseError>)
    ensures
        match spec_parse_line(spec_tokenize(s@)) {
            Some(i) => if i is Ldi {
                r == Ok::<Instruction, ParseError>(i)
            } else {
                r == Err::<Instruction, ParseError>(
                    (ParseError { line: 0, kind: ParseErrorKind::BadOperands }),
                )
            },
            None => r == Err::<Instruction, ParseError>(
                (ParseError { line: 0, kind: spec_line_kind(spec_tokenize(s@)) }),
            ),
        },
{
    let toks = tokenize(s);
    match parse_line(&toks) {
        Ok(i) => {
            if matches!(i, Instruction::Ldi(..)) {
                Ok(i)
            } else {
                Err(ParseError { line: 0, kind: ParseErrorKind::BadOperands })
            }
        },
        Err(kind) => Err(ParseError { line: 0, kind }),
    }
}

/// Parse a line as an indirect store instruction.
pub fn parse_sti(s: &[u8]) -> (r: Result<Instruction, ParseError>)
    ensures
        match spec_parse_line(spec_tokenize(s@)) {
            Some(i) => if i is Sti {
                r == Ok::<Instruction, ParseError>(i)
            } else {
                r == Err::<Instruction, ParseError>(
                    (ParseError { line: 0, kind: ParseErrorKind::BadOperands }),
                )
            },
            None => r == Err::<Instruction, ParseError>(
                (ParseError { line: 0, kind: spec_line_kind(spec_tokenize(s@)) }),
            ),
        },
{
    let toks = tokenize(s);
    match parse_line(&toks) {
        Ok(i) => {
            if matches!(i, Instruction::Sti(..)) {
                Ok(i)
            } else {
                Err(ParseError { line: 0, kind: ParseErrorKind::BadOperands })
            }
        },
        Err(kind) => Err(ParseError { line: 0, kind }),
    }
}

/// Parse a line as a register jump instruction.
pub fn parse_jmp(s: &[u8]) -> (r: Result<Instruction, ParseError>)
    ensures
        match spec_parse_line(spec_tokenize(s@)) {
            Some(i) => if i is Jmp {
                r == Ok::<Instruction, ParseError>(i)
            } else {
                r == Err::<Instruction, ParseError>(
                    (ParseError { line: 0, kind: ParseErrorKind::BadOperands }),
                )
            },
            None => r == Err::<Instruction, ParseError>(
                (ParseError { line: 0, kind: spec_line_kind(spec_tokenize(s@)) }),
            ),
        },
{
    let toks = tokenize(s);
    match parse_line(&toks) {
        Ok(i) => {
            if matches!(i, Instruction::Jmp(..)) {
                Ok(i)
            } else {
                Err(ParseError { line: 0, kind: ParseErrorKind::BadOperands })
            }
        },
        Err(kind) => Err(ParseError { line: 0, kind }),
    }
}

/// Parse a line as a reserved instruction instruction.
pub fn parse_res(s: &[u8]) -> (r: Result<Instruction, ParseError>)
    ensures
        match spec_parse_line(spec_tokenize(s@)) {
            Some(i) => if i is Res {
                r == Ok::<Instruction, ParseError>(i)
            } else {
                r == Err::<Instruction, ParseError>(
                    (ParseError { line: 0, kind: ParseErrorKind::BadOperands }),
                )
            },
            None => r == Err::<Instruction, ParseError>(
                (ParseError { line: 0, kind: spec_line_kind(spec_tokenize(s@)) }),
            ),
        },
{
    let toks = tokenize(s);
    match parse_line(&toks) {
        Ok(i) => {
            if matches!(i, Instruction::Res) {
                Ok(i)
            } else {
                Err(ParseError { line: 0, kind: ParseErrorKind::BadOperands })
            }
        },
        Err(kind) => Err(ParseError { line: 0, kind }),
    }
}

/// Parse a line as a load-effective-address instruction.
pub fn parse_lea(s: &[u8]) -> (r: Result<Instruction, ParseError>)
    ensures
        match spec_parse_line(spec_tokenize(s@)) {
            Some(i) => if i is Lea {
                r == Ok::<Instruction, ParseError>(i)
            } else {
                r == Err::<Instruction, ParseError>(
                    (ParseError { line: 0, kind: ParseErrorKind::BadOperands }),
                )
            },
            None => r == Err::<Instruction, ParseError>(
                (ParseError { line: 0, kind: spec_line_kind(spec_tokenize(s@)) }),
            ),
        },
{
    let toks = tokenize(s);
    match parse_line(&toks) {
        Ok(i) => {
            if matches!(i, Instruction::Lea(..)) {
                Ok(i)
            } else {
                Err(ParseError { line: 0, kind: ParseErrorKind::BadOperands })
            }
        },
        Err(kind) => Err(ParseError { line: 0, kind }),
    }
}

/// Parse a line as a trap instruction (the `trap <name>` form).
pub fn parse_trap(s: &[u8]) -> (r: Result<Instruction, ParseError>)
    ensures
        ({
            let toks = spec_tokenize(s@);
            &&& (toks.len() > 0 && spec_op_of(toks[0]) == Some(Op::Trap)) ==> (match spec_parse_line(
                toks,
            ) {
                Some(i) => r == Ok::<Instruction, ParseError>(i),
                None => r == Err::<Instruction, ParseError>(
                    (ParseError { line: 0, kind: spec_line_kind(toks) }),
                ),
            })
            &&& !(toks.len() > 0 && spec_op_of(toks[0]) == Some(Op::Trap)) ==> r == Err::<
                Instruction,
                ParseError,
            >((ParseError { line: 0, kind: ParseErrorKind::UnknownMnemonic }))
        }),
{
    let toks = tokenize(s);
    if toks.len() == 0 {
        return Err(ParseError { line: 0, kind: ParseErrorKind::UnknownMnemonic });
    }
    proof {
        assert(views(toks@)[0] == toks@[0]@);
    }
    if !matches!(op_of(toks[0].as_slice()), Some(Op::Trap)) {
        return Err(ParseError { line: 0, kind: ParseErrorKind::UnknownMnemonic });
    }
    match parse_line(&toks) {
        Ok(i) => Ok(i),
        Err(kind) => Err(ParseError { line: 0, kind }),
    }
}

/// Parse a line as the `halt` shorthand for `trap thalt`.
pub fn parse_halt(s: &[u8]) -> (r: Result<Instruction, ParseError>)
    ensures
        ({
            let toks = spec_tokenize(s@);
            &&& (toks.len() > 0 && spec_is_halt(toks[0])) ==> (match spec_parse_line(toks) {
                Some(i) => r == Ok::<Instruction, ParseError>(i),
                None => r == Err::<Instruction, ParseError>(
                    (ParseError { line: 0, kind: spec_line_kind(toks) }),
                ),
            })
            &&& !(toks.len() > 0 && spec_is_halt(toks[0])) ==> r == Err::<Instruction, ParseError>(
                (ParseError { line: 0, kind: ParseErrorKind::UnknownMnemonic }),
            )
        }),
{
    let toks = tokenize(s);
    if toks.len() == 0 {
        return Err(ParseError { line: 0, kind: ParseErrorKind::UnknownMnemonic });
    }
    proof {
        assert(views(toks@)[0] == toks@[0]@);
    }
    if !is_halt(toks[0].as_slice()) {
        return Err(ParseError { line: 0, kind: ParseErrorKind::UnknownMnemonic });
    }
    match parse_line(&toks) {
        Ok(i) => Ok(i),
        Err(kind) => Err(ParseError { line: 0, kind }),
    }
}

/// Parse a lone register name `r0`..`r7`.
pub fn parse_register(s: &[u8]) -> (r: Result<Register, ParseError>)
    ensures
        match (if spec_tokenize(s@).len() == 1 {
            spec_register_token(spec_tokenize(s@)[0])
        } else {
            None::<Register>
        }) {
            Some(reg) => r == Ok::<Register, ParseError>(reg),
            None => r == Err::<Register, ParseError>(
                (ParseError { line: 0, kind: ParseErrorKind::BadRegister }),
            ),
        },
{
    let toks = tokenize(s);
    if toks.len() != 1 {
        return Err(ParseError { line: 0, kind: ParseErrorKind::BadRegister });
    }
    proof {
        assert(views(toks@)[0] == toks@[0]@);
    }
    match register_token(toks[0].as_slice()) {
        Some(reg) => Ok(reg),
        None => Err(ParseError { line: 0, kind: ParseErrorKind::BadRegister }),
    }
}

/// A line with no tokens: empty, whitespace, or comment only.
pub open spec fn line_blank(l: Seq<u8>) -> bool {
    spec_tokenize(l).len() == 0
}

/// The instruction a source line denotes, if any.
pub open spec fn line_instr(l: Seq<u8>) -> Option<Instruction> {
    spec_parse_line(spec_tokenize(l))
}

/// The instructions of the well-parsing lines, in order, blank and bad
/// lines passed over.
pub open spec fn spec_instrs(lines: Seq<Seq<u8>>) -> Seq<Instruction>
    decreases lines.len(),
{
    if lines.len() == 0 {
        Seq::empty()
    } else {
        let rest = spec_instrs(lines.drop_first());
        if line_blank(lines[0]) {
            rest
        } else {
            match line_instr(lines[0]) {
                Some(i) => seq![i] + rest,
                None => rest,
            }
        }
    }
}

/// The indices (counted from `base`) of the non-blank lines that parse as
/// no instruction, in order.
pub open spec fn spec_bad_lines(lines: Seq<Seq<u8>>, base: int) -> Seq<int>
    decreases lines.len(),
{
    if lines.len() == 0 {
        Seq::empty()
    } else {
        let rest = spec_bad_lines(lines.drop_first(), base + 1);
        if !line_blank(lines[0]) && line_instr(lines[0]) is None {
            seq![base] + rest
        } else {
            rest
        }
    }
}

/// The line numbers of a diagnostic sequence.
pub open spec fn err_lines(es: Seq<ParseError>) -> Seq<int> {
    es.map_values(|e: ParseError| e.line as int)
}

/// Pushing a diagnostic pushes its line number onto the line numbers.
proof fn lemma_err_lines_push(es: Seq<ParseError>, e: ParseError)
    ensures
        err_lines(es.push(e)) =~= err_lines(es).push(e.line as int),
{
    assert forall|k: int| 0 <= k < es.len() + 1 implies err_lines(es.push(e))[k] == err_lines(
        es,
    ).push(e.line as int)[k] by {}
}

/// Parse an assembly source text into a program.
///
/// The text is lowered, split into lines, and each non-blank line parsed
/// as one instruction. When every such line parses, the program holds
/// their instructions in source order; otherwise the diagnostics name
/// each failing line, in order.
pub fn parse(source: &str) -> (r: Result<Program, Vec<ParseError>>)
    ensures
        ({
            let ls = spec_lines(spec_lower(source.spec_bytes()));
            match r {
                Ok(p) => {
                    &&& spec_bad_lines(ls, 0).len() == 0
                    &&& p.instructions@ == spec_instrs(ls)
                    &&& p.wf()
                },
                Err(es) => {
                    &&& es@.len() > 0
                    &&& err_lines(es@) == spec_bad_lines(ls, 0)
                    &&& forall|j: int|
                        0 <= j < es@.len() ==> 0 <= (#[trigger] es@[j]).line < ls.len()
                            && es@[j].kind == spec_line_kind(spec_tokenize(ls[es@[j].line as int]))
                },
            }
        }),
{
    let bytes = source.as_bytes();
    let lowered = lower(bytes);
    let lines = split_lines(lowered.as_slice());
    let ghost ls = spec_lines(spec_lower(source.spec_bytes()));
    proof {
        assert(views(lines@) == ls);
    }
    let mut instrs: Vec<Instruction> = Vec::new();
    let mut errs: Vec<ParseError> = Vec::new();
    let mut k: usize = 0;
    proof {
        assert(ls.skip(0) =~= ls);
        assert(instrs@ + spec_instrs(ls) =~= spec_instrs(ls));
        assert(err_lines(errs@) + spec_bad_lines(ls, 0) =~= spec_bad_lines(ls, 0));
    }
    while k < lines.len()
        invariant
            k <= lines@.len(),
            views(lines@) == ls,
            instrs@ + spec_instrs(ls.skip(k as int)) == spec_instrs(ls),
            err_lines(errs@) + spec_bad_lines(ls.skip(k as int), k as int) == spec_bad_lines(
                ls,
                0,
            ),
            forall|j: int|
                0 <= j < errs@.len() ==> 0 <= (#[trigger] errs@[j]).line < ls.len()
                    && errs@[j].kind == spec_line_kind(spec_tokenize(ls[errs@[j].line as int])),
            forall|j: int| 0 <= j < instrs@.len() ==> (#[trigger] instrs@[j]).wf(),
        decreases lines@.len() - k,
    {
        let ghost instrs0 = instrs@;
        let ghost errs0 = errs@;
        proof {
            assert(views(lines@)[k as int] == lines@[k as int]@);
            assert(ls.skip(k as int)[0] == ls[k as int]);
            assert(ls.skip(k as int).drop_first() =~= ls.skip(k + 1));
        }
        let toks = tokenize(lines[k].as_slice());
        if toks.len() > 0 {
            match parse_line(&toks) {
                Ok(i) => {
                    instrs.push(i);
                    proof {
                        lemma_push_concat(instrs0, i, spec_instrs(ls.skip(k + 1)));
                    }
                },
                Err(kind) => {
                    let e = ParseError { line: k, kind };
                    errs.push(e);
                    proof {
                        lemma_err_lines_push(errs0, e);
                        lemma_push_concat(
                            err_lines(errs0),
                            k as int,
                            spec_bad_lines(ls.skip(k + 1), k + 1),
                        );
                    }
                },
            }
        }
        k += 1;
    }
    proof {
        assert(ls.skip(ls.len() as int) =~= Seq::<Seq<u8>>::empty());
        assert(instrs@ + Seq::<Instruction>::empty() =~= instrs@);
        assert(err_lines(errs@) + Seq::<int>::empty() =~= err_lines(errs@));
    }
    if errs.len() == 0 {
        proof {
            assert(err_lines(errs@) =~= Seq::<int>::empty());
        }
        Ok(Program { instructions: instrs })
    } else {
        Err(errs)
    }
}

} // verus!
