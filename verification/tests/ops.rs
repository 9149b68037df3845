use rvm::decode::opc;
use rvm::vm::{op_name, Effect, Vm};

#[test]
fn test_opc() {
    assert_eq!(opc(0b0000_0000_0000_0000), 0);
    assert_eq!(opc(0b0001_0000_0000_0000), 1);
    assert_eq!(opc(0b0010_0000_0000_0000), 2);
    assert_eq!(opc(0b0011_0000_0000_0000), 3);
    assert_eq!(opc(0b0100_0000_0000_0000), 4);
    assert_eq!(opc(0b0101_0000_0000_0000), 5);
    assert_eq!(opc(0b0110_0000_0000_0000), 6);
    assert_eq!(opc(0b0111_0000_0000_0000), 7);
    assert_eq!(opc(0b1000_0000_0000_0000), 8);
    assert_eq!(opc(0b1001_0000_0000_0000), 9);
    assert_eq!(opc(0b1010_0000_0000_0000), 10);
    assert_eq!(opc(0b1011_0000_0000_0000), 11);
    assert_eq!(opc(0b1100_0000_0000_0000), 12);
    assert_eq!(opc(0b1101_0000_0000_0000), 13);
    assert_eq!(opc(0b1110_0000_0000_0000), 14);
    assert_eq!(opc(0b1111_0000_0000_0000), 15);

    assert_eq!(opc(0xF026), 15);
    assert_eq!(opc(0x1200), 1);
    assert_eq!(opc(0x1240), 1);
    assert_eq!(opc(0x1040), 1);
    assert_eq!(opc(0xF027), 15);
    assert_eq!(opc(0xF025), 15);
}

/// Dispatch, checked behaviorally: for a word of each opcode, `op`
/// leaves the machine exactly as the handler for that opcode does, and
/// returns the same effect.
fn assert_dispatches_to(word: u16, handler: fn(&mut Vm, u16) -> Effect) {
    let mut through_op = Vm::new();
    let mut direct = Vm::new();
    let eff_op = through_op.op(word);
    let eff_direct = handler(&mut direct, word);
    assert_eq!(eff_op, eff_direct);
    assert_eq!(through_op.running(), direct.running());
    for r in 0..10u16 {
        assert_eq!(through_op.reg(r), direct.reg(r));
    }
    for a in 0..64u16 {
        assert_eq!(through_op.read(a), direct.read(a));
    }
}

#[test]
fn test_ops() {
    assert_dispatches_to(0x0000, Vm::op_br);
    assert_dispatches_to(0x1000, Vm::op_add);
    assert_dispatches_to(0x2000, Vm::op_ld);
    assert_dispatches_to(0x3000, Vm::op_st);
    assert_dispatches_to(0x4000, Vm::op_jsr);
    assert_dispatches_to(0x5000, Vm::op_and);
    assert_dispatches_to(0x6000, Vm::op_ldr);
    assert_dispatches_to(0x7000, Vm::op_str);
    assert_dispatches_to(0x8000, Vm::op_rti);
    assert_dispatches_to(0x9000, Vm::op_not);
    assert_dispatches_to(0xA000, Vm::op_ldi);
    assert_dispatches_to(0xB000, Vm::op_sti);
    assert_dispatches_to(0xC000, Vm::op_jmp);
    assert_dispatches_to(0xD000, Vm::op_res);
    assert_dispatches_to(0xE000, Vm::op_lea);
    assert_dispatches_to(0xF025, Vm::op_trap);
}

#[test]
fn test_op_names() {
    assert_eq!(op_name(0), "br");
    assert_eq!(op_name(1), "add");
    assert_eq!(op_name(2), "ld");
    assert_eq!(op_name(3), "st");
    assert_eq!(op_name(4), "jsr");
    assert_eq!(op_name(5), "and");
    assert_eq!(op_name(6), "ldr");
    assert_eq!(op_name(7), "str");
    assert_eq!(op_name(8), "rti");
    assert_eq!(op_name(9), "not");
    assert_eq!(op_name(10), "ldi");
    assert_eq!(op_name(11), "sti");
    assert_eq!(op_name(12), "jmp");
    assert_eq!(op_name(13), "res");
    assert_eq!(op_name(14), "lea");
    assert_eq!(op_name(15), "trap");
}
