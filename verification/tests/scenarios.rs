use rvm::decode::{decode, sext};
use rvm::isa::{Instruction, Register, TrapVect};
use rvm::parser::parse;
use rvm::serialize;
use rvm::vm::{Effect, Vm, VmError, F_N, F_P, F_Z};

/// Run an assembly source on a fresh machine until it halts, feeding no
/// input, and collect everything it writes to standard output.
fn assemble_and_run(source: &str) -> (Vm, Vec<u8>) {
    let program = parse(source).expect("source should assemble");
    let image = serialize(&program);
    let mut vm = Vm::new();
    vm.load_image(&image, 0).expect("image should load");
    let mut out: Vec<u8> = Vec::new();
    let mut steps = 0usize;
    while vm.running() {
        steps += 1;
        assert!(steps < 10_000, "program did not halt");
        match vm.step().expect("no invalid trap") {
            Effect::Continue => {}
            Effect::PutChar(b) => out.push(b),
            Effect::PutString(s) => out.extend_from_slice(&s),
            Effect::PutNumber(v) => {
                out.extend_from_slice(v.to_string().as_bytes());
                out.push(b'\n');
            }
            Effect::ReadChar | Effect::ReadCharEcho | Effect::ReadNumber => {
                panic!("program asked for input");
            }
        }
    }
    (vm, out)
}

#[test]
fn halt_immediately() {
    let program = parse("halt").unwrap();
    let image = serialize(&program);
    assert_eq!(image, vec![0x30, 0x00, 0xF0, 0x25]);
    let (vm, out) = assemble_and_run("halt");
    assert!(out.is_empty());
    assert!(!vm.running());
    // One instruction executed: the counter moved past the halt.
    assert_eq!(vm.reg(8), 0x3001);
}

#[test]
fn add_immediate_and_output() {
    // The 5-bit immediate cannot carry 65 in one step, so build it by
    // doubling: 13, then 26, 52, and a final +13 makes 65, the letter A.
    let source = "add r0, r0, #13\n\
                  add r0, r0, r0\n\
                  add r0, r0, r0\n\
                  add r0, r0, #13\n\
                  trap toutc\n\
                  halt\n";
    let (_, out) = assemble_and_run(source);
    assert!(out.contains(&b'A'));
    assert_eq!(out, vec![65]);
}

#[test]
fn lea_and_puts() {
    // Build the bytes of "HI" in registers, store them past the code,
    // point R0 at them with lea, and print with the string trap.
    let source = "add r1, r1, #9\n\
                  add r1, r1, r1\n\
                  add r1, r1, r1\n\
                  add r1, r1, r1\n\
                  st r1, #5\n\
                  add r2, r1, #1\n\
                  st r2, #4\n\
                  lea r0, #2\n\
                  trap tputs\n\
                  halt\n";
    let (_, out) = assemble_and_run(source);
    assert_eq!(out, b"HI".to_vec());
}

#[test]
fn branch_taken_and_not_taken() {
    // The first add leaves zero, setting the Z flag. A brz must skip the
    // sentinel add; a brp must fall through to it.
    let taken = "add r0, r0, #0\n\
                 brz #1\n\
                 add r1, r1, #7\n\
                 halt\n";
    let (vm, _) = assemble_and_run(taken);
    assert_eq!(vm.reg(1), 0, "brz after a zero result must branch");

    let not_taken = "add r0, r0, #0\n\
                     brp #1\n\
                     add r1, r1, #7\n\
                     halt\n";
    let (vm, _) = assemble_and_run(not_taken);
    assert_eq!(vm.reg(1), 7, "brp after a zero result must not branch");
}

#[test]
fn not_and_flag() {
    let source = "add r0, r0, #0\n\
                  not r0, r0\n\
                  halt\n";
    let (vm, _) = assemble_and_run(source);
    assert_eq!(vm.reg(0), 0xFFFF);
    assert_eq!(vm.reg(9), F_N);
}

#[test]
fn round_trip_image() {
    let program = parse("add r1, r2, r3").unwrap();
    assert_eq!(
        program.instructions,
        vec![Instruction::Add1(Register::R1, Register::R2, Register::R3)]
    );
    let image = serialize(&program);
    assert_eq!(image, vec![0x30, 0x00, 0x12, 0x83]);
}

fn regs() -> Vec<Register> {
    vec![
        Register::R0,
        Register::R1,
        Register::R2,
        Register::R3,
        Register::R4,
        Register::R5,
        Register::R6,
        Register::R7,
    ]
}

fn check_round_trip(i: Instruction) {
    assert_eq!(decode(i.bytecode()), Some(i), "round trip of {:?}", i);
}

#[test]
fn encoder_decoder_round_trip() {
    let off9 = [0u16, 1, 0xFF, 0x100, 0x1FF];
    let off6 = [0u16, 1, 0x1F, 0x20, 0x3F];
    let imm5 = [0u16, 1, 0xF, 0x10, 0x1F];
    let off11 = [0u16, 1, 0x3FF, 0x400, 0x7FF];
    let flags = [false, true];
    for &n in &flags {
        for &z in &flags {
            for &p in &flags {
                for &o in &off9 {
                    check_round_trip(Instruction::Br(n, z, p, o));
                }
            }
        }
    }
    for &d in &regs() {
        for &s in &regs() {
            for &t in &regs() {
                check_round_trip(Instruction::Add1(d, s, t));
                check_round_trip(Instruction::And1(d, s, t));
            }
            for &m in &imm5 {
                check_round_trip(Instruction::Add2(d, s, m));
                check_round_trip(Instruction::And2(d, s, m));
            }
            for &o in &off6 {
                check_round_trip(Instruction::Ldr(d, s, o));
                check_round_trip(Instruction::Str(d, s, o));
            }
            check_round_trip(Instruction::Not(d, s));
        }
        for &o in &off9 {
            check_round_trip(Instruction::Ld(d, o));
            check_round_trip(Instruction::St(d, o));
            check_round_trip(Instruction::Ldi(d, o));
            check_round_trip(Instruction::Sti(d, o));
            check_round_trip(Instruction::Lea(d, o));
        }
        check_round_trip(Instruction::Jsrr(d));
        check_round_trip(Instruction::Jmp(d));
    }
    for &o in &off11 {
        check_round_trip(Instruction::Jsr(o));
    }
    check_round_trip(Instruction::Rti);
    check_round_trip(Instruction::Res);
    for t in [
        TrapVect::GetC,
        TrapVect::OutC,
        TrapVect::PutS,
        TrapVect::In,
        TrapVect::PutSp,
        TrapVect::Halt,
        TrapVect::InU16,
        TrapVect::OutU16,
    ] {
        check_round_trip(Instruction::Trap(t));
    }
}

#[test]
fn sign_extension_identities() {
    for b in [5u16, 6, 9, 11] {
        let half = 1u16 << (b - 1);
        assert_eq!(sext(0, b), 0);
        assert_eq!(sext(half - 1, b), half - 1);
        assert_eq!(sext(half, b), 0xFFFF - (half - 1));
    }
    // The 5-bit immediate -1 reads as 0xFFFF.
    assert_eq!(sext(0x1F, 5), 0xFFFF);
}

#[test]
fn flag_is_always_exactly_one() {
    // After each register-writing instruction, COND holds exactly one of
    // the three flags, matching the sign of the result.
    let source = "add r0, r0, #0\n\
                  halt\n";
    let (vm, _) = assemble_and_run(source);
    assert_eq!(vm.reg(9), F_Z);

    let source = "add r0, r0, #5\n\
                  halt\n";
    let (vm, _) = assemble_and_run(source);
    assert_eq!(vm.reg(9), F_P);

    let source = "add r0, r0, #1\n\
                  not r0, r0\n\
                  halt\n";
    let (vm, _) = assemble_and_run(source);
    assert_eq!(vm.reg(9), F_N);

    for f in [F_N, F_Z, F_P] {
        assert_eq!(f.count_ones(), 1);
    }
}

#[test]
fn arithmetic_wraps_modulo_two_to_sixteen() {
    let program = parse("add r0, r0, #1\nhalt").unwrap();
    let image = serialize(&program);
    let mut vm = Vm::new();
    vm.load_image(&image, 0).unwrap();
    vm.provide_number(0xFFFF);
    assert_eq!(vm.reg(0), 0xFFFF);
    while vm.running() {
        vm.step().unwrap();
    }
    assert_eq!(vm.reg(0), 0, "0xFFFF + 1 wraps to zero");
    assert_eq!(vm.reg(9), F_Z);
}

#[test]
fn char_input_traps() {
    let source = "trap tgetc\n\
                  trap toutc\n\
                  halt\n";
    let program = parse(source).unwrap();
    let image = serialize(&program);
    let mut vm = Vm::new();
    vm.load_image(&image, 0).unwrap();
    assert_eq!(vm.step().unwrap(), Effect::ReadChar);
    vm.provide_char(b'Q');
    assert_eq!(vm.reg(0), b'Q' as u16);
    assert_eq!(vm.step().unwrap(), Effect::PutChar(b'Q'));
    assert_eq!(vm.step().unwrap(), Effect::Continue);
    assert!(!vm.running());
}

#[test]
fn number_input_traps() {
    let source = "trap tinu16\n\
                  trap toutu16\n\
                  halt\n";
    let program = parse(source).unwrap();
    let image = serialize(&program);
    let mut vm = Vm::new();
    vm.load_image(&image, 0).unwrap();
    assert_eq!(vm.step().unwrap(), Effect::ReadNumber);
    vm.provide_number(54321);
    assert_eq!(vm.step().unwrap(), Effect::PutNumber(54321));
    assert_eq!(vm.step().unwrap(), Effect::Continue);
    assert!(!vm.running());
}

#[test]
fn putsp_is_a_no_op() {
    let (vm, out) = assemble_and_run("trap tputsp\nhalt");
    assert!(out.is_empty());
    assert!(!vm.running());
    assert_eq!(vm.reg(0), 0);
}

#[test]
fn echo_input_trap() {
    let program = parse("trap tin\nhalt").unwrap();
    let image = serialize(&program);
    let mut vm = Vm::new();
    vm.load_image(&image, 0).unwrap();
    assert_eq!(vm.step().unwrap(), Effect::ReadCharEcho);
    vm.provide_char(b'x');
    assert_eq!(vm.reg(0), b'x' as u16);
}

#[test]
fn loader_errors() {
    let mut vm = Vm::new();
    assert_eq!(vm.load_image(&[0x30], 0), Err(VmError::ImageTooShort));
    assert_eq!(
        vm.load_image(&[0x30, 0x00, 0xF0], 0),
        Err(VmError::ImageOddLength)
    );
    // Two words starting at the very top of memory run past it.
    assert_eq!(
        vm.load_image(&[0xFF, 0xFF, 0xF0, 0x25, 0x00, 0x00], 0),
        Err(VmError::ImageTooLarge)
    );
    // A failed load leaves the machine untouched.
    assert_eq!(vm.reg(8), 0);
    assert!(vm.running());
}

#[test]
fn invalid_trap_vector_is_fatal() {
    let mut vm = Vm::new();
    // 0xF000 names trap vector 0, below the service range.
    vm.load_image(&[0x30, 0x00, 0xF0, 0x00], 0).unwrap();
    assert_eq!(vm.step(), Err(VmError::InvalidTrap));
    // The machine did not move.
    assert_eq!(vm.reg(8), 0x3000);
    assert!(vm.running());
}

#[test]
fn memory_read_write() {
    let mut vm = Vm::new();
    assert_eq!(vm.read(5), 0);
    vm.write(5, 99);
    assert_eq!(vm.read(5), 99);
    vm.write(0xFFFF, 7);
    assert_eq!(vm.read(0xFFFF), 7);
}

#[test]
fn loader_places_words_at_origin() {
    let mut vm = Vm::new();
    vm.load(&[0x12, 0x34, 0xAB, 0xCD], 0x4000).unwrap();
    assert_eq!(vm.read(0x4000), 0x1234);
    assert_eq!(vm.read(0x4001), 0xABCD);
    assert_eq!(vm.read(0x3FFF), 0);
    assert_eq!(vm.read(0x4002), 0);
    // The register file is untouched by a plain load.
    assert_eq!(vm.reg(8), 0);
}

#[test]
fn load_image_applies_pc_offset() {
    let mut vm = Vm::new();
    vm.load_image(&[0x30, 0x00, 0xF0, 0x25], 3).unwrap();
    assert_eq!(vm.reg(8), 0x3003);
    assert_eq!(vm.read(0x3000), 0xF025);
}

#[test]
fn loaded_image_decodes_back_to_program() {
    let source = "add r1, r2, r3\n\
                  not r4, r5\n\
                  brnp #12\n\
                  jsr x7ff\n\
                  trap tputs\n\
                  halt\n";
    let program = parse(source).unwrap();
    let image = serialize(&program);
    let mut vm = Vm::new();
    vm.load_image(&image, 0).unwrap();
    assert_eq!(vm.reg(8), 0x3000);
    for (k, &instr) in program.instructions.iter().enumerate() {
        let word = vm.read(0x3000 + k as u16);
        assert_eq!(decode(word), Some(instr));
    }
}
