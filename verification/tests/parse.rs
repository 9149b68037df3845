use rvm::isa::{Instruction, Register, TrapVect};
use rvm::lexer::{parse_decimal, parse_hex, parse_number};
use rvm::parser::{
    parse, parse_add, parse_add1, parse_add2, parse_and, parse_and1, parse_and2, parse_br,
    parse_halt, parse_jmp, parse_jsr, parse_jsrr, parse_ld, parse_ldi, parse_ldr, parse_lea,
    parse_not, parse_register, parse_res, parse_rti, parse_st, parse_sti, parse_str, parse_trap,
    ParseErrorKind,
};

#[test]
fn test_parse_br() {
    assert_eq!(
        parse_br(b"brnz x12"),
        Ok(Instruction::Br(true, true, false, 0x12))
    );
    assert_eq!(
        parse_br(b"brnp x12"),
        Ok(Instruction::Br(true, false, true, 0x12))
    );
    assert_eq!(
        parse_br(b"brzp x12"),
        Ok(Instruction::Br(false, true, true, 0x12))
    );
    assert_eq!(
        parse_br(b"brn x12"),
        Ok(Instruction::Br(true, false, false, 0x12))
    );
    assert_eq!(
        parse_br(b"brz x12"),
        Ok(Instruction::Br(false, true, false, 0x12))
    );
    assert_eq!(
        parse_br(b"brp x12"),
        Ok(Instruction::Br(false, false, true, 0x12))
    );
    assert_eq!(
        parse_br(b"brnz #12"),
        Ok(Instruction::Br(true, true, false, 12))
    );
    assert_eq!(
        parse_br(b"brnp #12"),
        Ok(Instruction::Br(true, false, true, 12))
    );
    assert_eq!(
        parse_br(b"brzp #12"),
        Ok(Instruction::Br(false, true, true, 12))
    );
    assert_eq!(
        parse_br(b"brn #12"),
        Ok(Instruction::Br(true, false, false, 12))
    );
    assert_eq!(
        parse_br(b"brz #12"),
        Ok(Instruction::Br(false, true, false, 12))
    );
    assert_eq!(
        parse_br(b"brp #12"),
        Ok(Instruction::Br(false, false, true, 12))
    );
}

#[test]
fn test_parse_add() {
    assert_eq!(
        parse_add(b"add r0, r1, r2"),
        Ok(Instruction::Add1(Register::R0, Register::R1, Register::R2))
    );
    assert_eq!(
        parse_add(b"add r0, r1, #2"),
        Ok(Instruction::Add2(Register::R0, Register::R1, 2))
    );
    assert_eq!(
        parse_add(b"add r0, r1, x2"),
        Ok(Instruction::Add2(Register::R0, Register::R1, 0x2))
    );
}

#[test]
fn test_parse_add1() {
    assert_eq!(
        parse_add1(b"add r0, r1, r2"),
        Ok(Instruction::Add1(Register::R0, Register::R1, Register::R2))
    );
}

#[test]
fn test_parse_add2() {
    assert_eq!(
        parse_add2(b"add r0, r1, #2"),
        Ok(Instruction::Add2(Register::R0, Register::R1, 2))
    );
    assert_eq!(
        parse_add2(b"add r0, r1, x2"),
        Ok(Instruction::Add2(Register::R0, Register::R1, 0x2))
    );
}

#[test]
fn test_parse_ld() {
    assert_eq!(parse_ld(b"ld r0, #2"), Ok(Instruction::Ld(Register::R0, 2)));
    assert_eq!(
        parse_ld(b"ld r0, x2"),
        Ok(Instruction::Ld(Register::R0, 0x2))
    );
}

#[test]
fn test_parse_st() {
    assert_eq!(parse_st(b"st r0, #2"), Ok(Instruction::St(Register::R0, 2)));
    assert_eq!(
        parse_st(b"st r0, x2"),
        Ok(Instruction::St(Register::R0, 0x2))
    );
}

#[test]
fn test_parse_jsr() {
    assert_eq!(parse_jsr(b"jsr #2"), Ok(Instruction::Jsr(2)));
    assert_eq!(parse_jsr(b"jsr x2"), Ok(Instruction::Jsr(0x2)));
}

#[test]
fn test_parse_jsrr() {
    assert_eq!(parse_jsrr(b"jsrr r0"), Ok(Instruction::Jsrr(Register::R0)));
}

#[test]
fn test_parse_and() {
    assert_eq!(
        parse_and(b"and r0, r1, r2"),
        Ok(Instruction::And1(Register::R0, Register::R1, Register::R2))
    );
    assert_eq!(
        parse_and(b"and r0, r1, #2"),
        Ok(Instruction::And2(Register::R0, Register::R1, 2))
    );
    assert_eq!(
        parse_and(b"and r0, r1, x2"),
        Ok(Instruction::And2(Register::R0, Register::R1, 0x2))
    );
}

#[test]
fn test_parse_and1() {
    assert_eq!(
        parse_and1(b"and r0, r1, r2"),
        Ok(Instruction::And1(Register::R0, Register::R1, Register::R2))
    );
}

#[test]
fn test_parse_and2() {
    assert_eq!(
        parse_and2(b"and r0, r1, #2"),
        Ok(Instruction::And2(Register::R0, Register::R1, 2))
    );
    assert_eq!(
        parse_and2(b"and r0, r1, x2"),
        Ok(Instruction::And2(Register::R0, Register::R1, 0x2))
    );
}

#[test]
fn test_parse_ldr() {
    assert_eq!(
        parse_ldr(b"ldr r0, r1, #2"),
        Ok(Instruction::Ldr(Register::R0, Register::R1, 2))
    );
    assert_eq!(
        parse_ldr(b"ldr r0, r1, x2"),
        Ok(Instruction::Ldr(Register::R0, Register::R1, 0x2))
    );
}

#[test]
fn test_parse_str() {
    assert_eq!(
        parse_str(b"str r0, r1, #2"),
        Ok(Instruction::Str(Register::R0, Register::R1, 2))
    );
    assert_eq!(
        parse_str(b"str r0, r1, x2"),
        Ok(Instruction::Str(Register::R0, Register::R1, 0x2))
    );
}

#[test]
fn test_parse_rti() {
    assert_eq!(parse_rti(b"rti"), Ok(Instruction::Rti));
}

#[test]
fn test_parse_not() {
    assert_eq!(
        parse_not(b"not r0, r1"),
        Ok(Instruction::Not(Register::R0, Register::R1))
    );
}

#[test]
fn test_parse_ldi() {
    assert_eq!(
        parse_ldi(b"ldi r0, #2"),
        Ok(Instruction::Ldi(Register::R0, 2))
    );
    assert_eq!(
        parse_ldi(b"ldi r0, x2"),
        Ok(Instruction::Ldi(Register::R0, 0x2))
    );
}

#[test]
fn test_parse_sti() {
    assert_eq!(
        parse_sti(b"sti r0, #2"),
        Ok(Instruction::Sti(Register::R0, 2))
    );
    assert_eq!(
        parse_sti(b"sti r0, x2"),
        Ok(Instruction::Sti(Register::R0, 0x2))
    );
}

#[test]
fn test_parse_jmp() {
    assert_eq!(parse_jmp(b"jmp r0"), Ok(Instruction::Jmp(Register::R0)));
}

#[test]
fn test_parse_res() {
    assert_eq!(parse_res(b"res"), Ok(Instruction::Res));
}

#[test]
fn test_parse_lea() {
    assert_eq!(
        parse_lea(b"lea r0, #2"),
        Ok(Instruction::Lea(Register::R0, 2))
    );
    assert_eq!(
        parse_lea(b"lea r0, x2"),
        Ok(Instruction::Lea(Register::R0, 0x2))
    );
}

#[test]
fn test_parse_number() {
    assert_eq!(parse_number(b"x1234"), Ok(0x1234));
    assert_eq!(parse_number(b"#1234"), Ok(1234));
}

#[test]
fn test_parse_hex() {
    assert_eq!(parse_hex(b"x1234"), Ok(0x1234));
}

#[test]
fn test_parse_decimal() {
    assert_eq!(parse_decimal(b"#1234"), Ok(1234));
}

#[test]
fn parse_trap_names() {
    assert_eq!(
        parse_trap(b"trap tgetc"),
        Ok(Instruction::Trap(TrapVect::GetC))
    );
    assert_eq!(
        parse_trap(b"trap toutc"),
        Ok(Instruction::Trap(TrapVect::OutC))
    );
    assert_eq!(
        parse_trap(b"trap tputs"),
        Ok(Instruction::Trap(TrapVect::PutS))
    );
    assert_eq!(parse_trap(b"trap tin"), Ok(Instruction::Trap(TrapVect::In)));
    assert_eq!(
        parse_trap(b"trap tputsp"),
        Ok(Instruction::Trap(TrapVect::PutSp))
    );
    assert_eq!(
        parse_trap(b"trap thalt"),
        Ok(Instruction::Trap(TrapVect::Halt))
    );
    assert_eq!(
        parse_trap(b"trap tinu16"),
        Ok(Instruction::Trap(TrapVect::InU16))
    );
    assert_eq!(
        parse_trap(b"trap toutu16"),
        Ok(Instruction::Trap(TrapVect::OutU16))
    );
    assert_eq!(
        parse_halt(b"halt"),
        Ok(Instruction::Trap(TrapVect::Halt))
    );
}

#[test]
fn parse_register_tokens() {
    assert_eq!(parse_register(b"r0"), Ok(Register::R0));
    assert_eq!(parse_register(b"r7"), Ok(Register::R7));
    let r8 = parse_register(b"r8");
    assert!(r8.is_err());
    assert_eq!(r8.unwrap_err().kind, ParseErrorKind::BadRegister);
}

#[test]
fn parse_error_kinds() {
    let errs = parse("bogus").unwrap_err();
    assert_eq!(errs.len(), 1);
    assert_eq!(errs[0].line, 0);
    assert_eq!(errs[0].kind, ParseErrorKind::UnknownMnemonic);

    let errs = parse("add r0, r0").unwrap_err();
    assert_eq!(errs[0].kind, ParseErrorKind::BadOperands);

    let errs = parse("trap tx").unwrap_err();
    assert_eq!(errs[0].kind, ParseErrorKind::BadTrapName);

    // A number too wide for 16 bits is rejected.
    let e = parse_number(b"#65536").unwrap_err();
    assert_eq!(e.kind, ParseErrorKind::BadNumber);
    assert_eq!(parse_number(b"#65535"), Ok(0xFFFF));
    assert_eq!(parse_number(b"xffff"), Ok(0xFFFF));
    assert!(parse_number(b"x10000").is_err());
    assert!(parse_number(b"#12a").is_err());
    assert!(parse_number(b"12").is_err());
    assert!(parse_number(b"#").is_err());
    assert!(parse_number(b"x").is_err());
}

#[test]
fn parse_error_lines_in_order() {
    let errs = parse("halt\nbogus\n\n; just a comment\nbrz\nhalt").unwrap_err();
    let lines: Vec<usize> = errs.iter().map(|e| e.line).collect();
    assert_eq!(lines, vec![1, 4]);
}

#[test]
fn parse_case_and_comments() {
    let p = parse("HALT ; stop the machine\n").unwrap();
    assert_eq!(p.instructions, vec![Instruction::Trap(TrapVect::Halt)]);

    let p = parse("  Add R0, r0, #65\n\ntrap TOUTC\nhalt").unwrap();
    assert_eq!(
        p.instructions,
        vec![
            Instruction::Add2(Register::R0, Register::R0, 65 & 0x1F),
            Instruction::Trap(TrapVect::OutC),
            Instruction::Trap(TrapVect::Halt),
        ]
    );
}

#[test]
fn parse_empty_and_blank_sources() {
    let p = parse("").unwrap();
    assert!(p.instructions.is_empty());
    let p = parse("\n\n   \n; only a comment\n").unwrap();
    assert!(p.instructions.is_empty());
    assert_eq!(rvm::serialize(&p), vec![0x30, 0x00]);
}
