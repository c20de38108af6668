use belle::cpu::{Completion, CPU};
use belle::isa::{Argument, Instruction};

fn arg(s: &str) -> Argument {
    if let Some(rest) = s.strip_prefix("&r") {
        Argument::RegPtr(rest.parse().expect("Invalid register pointer"))
    } else if let Some(rest) = s.strip_prefix("&$") {
        Argument::MemPtr(rest.parse().expect("Invalid memory pointer"))
    } else if let Some(rest) = s.strip_prefix('$') {
        Argument::MemAddr(rest.parse().expect("Invalid memory address"))
    } else if let Ok(v) = s.parse::<i16>() {
        Argument::Literal(v)
    } else if let Some(rest) = s.strip_prefix('r') {
        Argument::Register(rest.parse().expect("Invalid register"))
    } else {
        panic!("unknown operand {s}")
    }
}

fn instruction(op: &str, a1: &str, a2: &str) -> Instruction {
    match op.to_uppercase().as_str() {
        "HLT" => Instruction::HLT,
        "ADD" => Instruction::ADD(arg(a1), arg(a2)),
        "BO" => Instruction::BO(arg(a1)),
        "BNO" => Instruction::BNO(arg(a1)),
        "POP" => Instruction::POP(arg(a1)),
        "DIV" => Instruction::DIV(arg(a1), arg(a2)),
        "RET" => Instruction::RET,
        "BL" => Instruction::BL(arg(a1)),
        "BG" => Instruction::BG(arg(a1)),
        "LD" => Instruction::LD(arg(a1), arg(a2)),
        "ST" => Instruction::ST(arg(a1), arg(a2)),
        "JMP" => Instruction::JMP(arg(a1)),
        "BZ" => Instruction::BZ(arg(a1)),
        "BNZ" => Instruction::BNZ(arg(a1)),
        "CMP" => Instruction::CMP(arg(a1), arg(a2)),
        "NAND" => Instruction::NAND(arg(a1), arg(a2)),
        "PUSH" => Instruction::PUSH(arg(a1)),
        "INT" => Instruction::INT(arg(a1)),
        "MOV" => Instruction::MOV(arg(a1), arg(a2)),
        "LEA" => Instruction::LEA(arg(a1), arg(a2)),
        _ => panic!("unknown instruction {op}"),
    }
}

/// Executes one instruction; panics where the emulator stops with an error.
fn exec(cpu: &mut CPU, op: &str, a1: &str, a2: &str) {
    let ins = instruction(op, a1, a2);
    if cpu.would_trap(&ins) {
        panic!("the instruction cannot be executed here");
    }
    match cpu.execute_instruction(&ins) {
        Err(e) => panic!("{:?}", e),
        Ok(Completion::FloatUnit) => panic!("needs the floating-point unit"),
        Ok(_) => {}
    }
}

#[test]
fn set_register() {
    let mut bcpu = CPU::new();
    bcpu.set_register_value(&Argument::Register(2), 3.0f32 as i64).unwrap();
    assert_eq!(bcpu.int_reg[2], 3);
}

#[test]
fn set_register_0() {
    let mut bcpu = CPU::new();
    bcpu.set_register_value(&Argument::Register(0), 3.0f32 as i64).unwrap();
    assert_eq!(bcpu.int_reg[0], 3);
    bcpu.set_register_value(&Argument::Register(0), -4.9f32 as i64).unwrap();
    assert_eq!(bcpu.int_reg[0], 3);
}

#[test]
fn mod_add_with_immediate() {
    let mut bcpu = CPU::new();
    exec(&mut bcpu, "add", "r0", "3");
    assert_eq!(bcpu.int_reg[0], 3);
}

#[test]
fn add_with_immediate_overflow() {
    let mut bcpu = CPU::new();
    exec(&mut bcpu, "add", "r0", "32000");
    exec(&mut bcpu, "add", "r0", "32000");
    exec(&mut bcpu, "add", "r0", "32000");
    assert_eq!(bcpu.oflag, true);
}

#[test]
fn mod_add_with_register() {
    let mut bcpu = CPU::new();
    bcpu.int_reg[0] = 5;
    bcpu.int_reg[2] = 12;
    exec(&mut bcpu, "add", "r0", "r2");
    assert_eq!(bcpu.int_reg[0], 17);
}

#[test]
#[should_panic]
fn add_with_register_fail() {
    let mut bcpu = CPU::new();
    exec(&mut bcpu, "add", "r3434", "r3");
}

#[test]
fn mod_add_with_rptr() {
    let mut bcpu = CPU::new();
    bcpu.int_reg[0] = 21;
    bcpu.int_reg[2] = 33;
    bcpu.memory[33] = Some(42);
    exec(&mut bcpu, "add", "r0", "&r2");
    assert_eq!(bcpu.int_reg[0], 63);
}

#[test]
fn add_with_rptr_fail() {
    let mut bcpu = CPU::new();
    bcpu.int_reg[0] = 44;
    exec(&mut bcpu, "add", "r3", "&r0");
}

#[test]
fn mod_add_with_mptr() {
    let mut bcpu = CPU::new();
    bcpu.int_reg[0] = 444;
    bcpu.memory[33] = Some(42);
    bcpu.memory[42] = Some(60);
    exec(&mut bcpu, "add", "r0", "&$33");
    assert_eq!(bcpu.int_reg[0], 504);
}

#[test]
fn add_with_mptr_fail() {
    let mut bcpu = CPU::new();
    bcpu.memory[44] = Some(55);
    exec(&mut bcpu, "add", "r0", "&$44");
}

#[test]
fn mod_add_with_negative_register() {
    let mut bcpu = CPU::new();
    bcpu.int_reg[0] = 65493;
    bcpu.int_reg[5] = 42;
    exec(&mut bcpu, "add", "r5", "r0");
    assert_eq!(bcpu.int_reg[5], 65535);
}

#[test]
fn add_with_negative_register_underflow() {
    let mut bcpu = CPU::new();
    bcpu.int_reg[0] = 65494;
    exec(&mut bcpu, "add", "r5", "r0");
    assert_eq!(bcpu.int_reg[5], 65494);
}

#[test]
fn hlt() {
    let mut bcpu = CPU::new();
    bcpu.running = true;
    exec(&mut bcpu, "hlt", "", "");
    assert_eq!(bcpu.running, false);
}

#[test]
fn bo_jump() {
    let mut bcpu = CPU::new();
    exec(&mut bcpu, "add", "r0", "4444");
    bcpu.oflag = true;
    assert_eq!(bcpu.oflag, true);
    exec(&mut bcpu, "bo", "$300", "");
    assert_eq!(bcpu.pc, 300);
    bcpu.int_reg[4] = 444;
    exec(&mut bcpu, "bo", "&r4", "");
    assert_eq!(bcpu.pc, 444);
}

#[test]
fn bo_no_jump() {
    let mut bcpu = CPU::new();
    exec(&mut bcpu, "bo", "$300", "");
    assert_eq!(bcpu.pc, 1);
}

#[test]
fn bno_no_jump() {
    let mut bcpu = CPU::new();
    exec(&mut bcpu, "add", "r0", "4444");
    bcpu.oflag = true;
    assert_eq!(bcpu.oflag, true);
    exec(&mut bcpu, "bno", "$300", "");
    assert_eq!(bcpu.pc, 2);
    bcpu.int_reg[4] = 444;
    exec(&mut bcpu, "bno", "&r4", "");
    assert_eq!(bcpu.pc, 3);
}

#[test]
fn bno_jump() {
    let mut bcpu = CPU::new();
    exec(&mut bcpu, "bno", "$300", "");
    assert_eq!(bcpu.pc, 300);
}

#[test]
fn bnz_no_jump() {
    let mut bcpu = CPU::new();
    exec(&mut bcpu, "cmp", "r0", "r0");
    assert_eq!(bcpu.zflag, true);
    exec(&mut bcpu, "bnz", "$300", "");
    assert_eq!(bcpu.pc, 2);
    bcpu.int_reg[4] = 444;
    exec(&mut bcpu, "bnz", "&r4", "");
    assert_eq!(bcpu.pc, 3);
}

#[test]
fn bnz_jump() {
    let mut bcpu = CPU::new();
    exec(&mut bcpu, "bnz", "$120", "");
    assert_eq!(bcpu.pc, 120);
}

#[test]
fn bz_jump() {
    let mut bcpu = CPU::new();
    exec(&mut bcpu, "cmp", "r0", "r0");
    assert_eq!(bcpu.zflag, true);
    exec(&mut bcpu, "bz", "$300", "");
    assert_eq!(bcpu.pc, 300);
    bcpu.int_reg[4] = 444;
    exec(&mut bcpu, "bz", "&r4", "");
    assert_eq!(bcpu.pc, 444);
}

#[test]
fn bz_no_jump() {
    let mut bcpu = CPU::new();
    exec(&mut bcpu, "bz", "$120", "");
    assert_eq!(bcpu.pc, 1);
}

#[test]
fn jmp_jump() {
    let mut bcpu = CPU::new();
    exec(&mut bcpu, "jmp", "$320", "");
    assert_eq!(bcpu.pc, 320);
    bcpu.int_reg[4] = 444;
    exec(&mut bcpu, "jmp", "&r4", "");
    assert_eq!(bcpu.pc, 444);
}

#[test]
fn pop_fail() {
    let mut bcpu = CPU::new();
    bcpu.sp = 40;
    bcpu.bp = 39;
    bcpu.pc = 50;
    exec(&mut bcpu, "pop", "r4", "");
}

#[test]
fn pop_success() {
    let mut bcpu = CPU::new();
    bcpu.sp = 44;
    bcpu.bp = 45;
    bcpu.memory[44] = Some(33);
    exec(&mut bcpu, "pop", "r2", "");
    assert_eq!(bcpu.int_reg[2], 33);
    assert_eq!(bcpu.sp, 45);
    assert_eq!(bcpu.bp, 45);
}

#[test]
#[should_panic]
fn push_fail() {
    let mut bcpu = CPU::new();
    bcpu.sp = 0;
    bcpu.bp = 0;
    exec(&mut bcpu, "push", "44", "");
}

#[test]
#[should_panic]
fn push_fail_2() {
    let mut bcpu = CPU::new();
    bcpu.sp = u16::MAX;
    exec(&mut bcpu, "push", "434", "");
}

#[test]
fn st_success() {
    let mut bcpu = CPU::new();
    bcpu.int_reg[0] = 45;
    exec(&mut bcpu, "st", "$31", "r0");
    assert_eq!(bcpu.memory[31], Some(45));
}

#[test]
fn lea_success() {
    let mut bcpu = CPU::new();
    bcpu.memory[44] = Some(45);
    exec(&mut bcpu, "lea", "r0", "$44");
    assert_eq!(bcpu.int_reg[0], 44);
}

#[test]
fn ld_success() {
    let mut bcpu = CPU::new();
    bcpu.memory[44] = Some(45);
    exec(&mut bcpu, "ld", "r0", "$44");
    assert_eq!(bcpu.int_reg[0], 45);
}

#[test]
fn push_success() {
    let mut bcpu = CPU::new();
    bcpu.sp = 32;
    bcpu.bp = 33;
    exec(&mut bcpu, "push", "45", "");
    assert_eq!(bcpu.memory[31], Some(45));
    bcpu = CPU::new();
    bcpu.sp = 20;
    bcpu.bp = 20;
    exec(&mut bcpu, "push", "33", "");
    assert_eq!(bcpu.memory[19], Some(33));
}

#[test]
fn cmp_fail() {
    let mut bcpu = CPU::new();
    bcpu.int_reg[2] = 333;
    exec(&mut bcpu, "cmp", "r0", "&r2");
}

#[test]
#[should_panic]
fn div_fail() {
    let mut bcpu = CPU::new();
    exec(&mut bcpu, "div", "r0", "0");
}

#[test]
fn div_success() {
    let mut bcpu = CPU::new();
    bcpu.int_reg[0] = 9;
    exec(&mut bcpu, "div", "r0", "3");
    assert_eq!(bcpu.int_reg[0], 3);
}

#[test]
fn mov_fail() {
    let mut bcpu = CPU::new();
    bcpu.int_reg[1] = 65503;
    exec(&mut bcpu, "mov", "r0", "&r1");
}

#[test]
fn mov_fail_2() {
    let mut bcpu = CPU::new();
    bcpu.int_reg[4] = 333;
    exec(&mut bcpu, "mov", "r2", "&r4");
}

#[test]
#[should_panic]
fn ret_fail() {
    let mut bcpu = CPU::new();
    bcpu.sp = 88;
    bcpu.bp = 123;
    exec(&mut bcpu, "ret", "", "");
}

#[test]
fn ret_success() {
    let mut bcpu = CPU::new();
    bcpu.sp = 88;
    bcpu.bp = 89;
    bcpu.memory[88] = Some(123);
    exec(&mut bcpu, "ret", "", "");
    assert_eq!(bcpu.sp, 89);
    assert_eq!(bcpu.sp, 89);
    assert_eq!(bcpu.pc, 124);
}

#[test]
fn int_fail() {
    let mut bcpu = CPU::new();
    exec(&mut bcpu, "int", "90", "");
}

#[test]
fn int_success() {
    let mut bcpu = CPU::new();
    exec(&mut bcpu, "int", "11", "");
    exec(&mut bcpu, "int", "12", "");
    assert_eq!(bcpu.zflag, false);
    exec(&mut bcpu, "int", "13", "");
    assert_eq!(bcpu.zflag, true);
    exec(&mut bcpu, "int", "21", "");
    assert_eq!(bcpu.oflag, true);
    exec(&mut bcpu, "int", "22", "");
    assert_eq!(bcpu.oflag, false);
    exec(&mut bcpu, "int", "23", "");
    assert_eq!(bcpu.oflag, true);
    exec(&mut bcpu, "int", "31", "");
    assert_eq!(bcpu.rflag, true);
    exec(&mut bcpu, "int", "32", "");
    assert_eq!(bcpu.rflag, false);
    exec(&mut bcpu, "int", "33", "");
    assert_eq!(bcpu.rflag, true);
    exec(&mut bcpu, "int", "41", "");
    assert_eq!(bcpu.sflag, true);
    exec(&mut bcpu, "int", "42", "");
    assert_eq!(bcpu.sflag, false);
    exec(&mut bcpu, "int", "43", "");
    assert_eq!(bcpu.sflag, true);
    bcpu.int_reg[4] = 555;
    exec(&mut bcpu, "int", "60", "");
    assert_eq!(bcpu.sp, 555);
    bcpu.int_reg[4] = 6154;
    exec(&mut bcpu, "int", "61", "");
    assert_eq!(bcpu.bp, 6154);
}

#[test]
fn bl_jump() {
    let mut bcpu = CPU::new();
    bcpu.int_reg[0] = 55;
    bcpu.int_reg[1] = 56;
    exec(&mut bcpu, "cmp", "r0", "r1");
    exec(&mut bcpu, "bl", "$120", "");
    assert_eq!(bcpu.pc, 120);
}

#[test]
fn bl_no_jump() {
    let mut bcpu = CPU::new();
    bcpu.int_reg[0] = 56;
    bcpu.int_reg[1] = 55;
    exec(&mut bcpu, "cmp", "r0", "r1");
    exec(&mut bcpu, "bl", "$120", "");
    assert_eq!(bcpu.pc, 2);
}

#[test]
fn bg_no_jump() {
    let mut bcpu = CPU::new();
    bcpu.int_reg[0] = 55;
    bcpu.int_reg[1] = 56;
    exec(&mut bcpu, "cmp", "r0", "r1");
    exec(&mut bcpu, "bg", "$120", "");
    assert_eq!(bcpu.pc, 2);
}

#[test]
fn bg_jump() {
    let mut bcpu = CPU::new();
    bcpu.int_reg[0] = 56;
    bcpu.int_reg[1] = 55;
    exec(&mut bcpu, "cmp", "r0", "r1");
    exec(&mut bcpu, "bg", "$120", "");
    assert_eq!(bcpu.pc, 120);
}

#[test]
fn test_add_with_immediate() {
    let mut bcpu = CPU::new();
    exec(&mut bcpu, "add", "r0", "3");
    assert_eq!(bcpu.int_reg[0], 3);
}

#[test]
fn test_add_with_register() {
    let mut bcpu = CPU::new();
    bcpu.int_reg[0] = 5;
    bcpu.int_reg[2] = 12;
    exec(&mut bcpu, "add", "r0", "r2");
    assert_eq!(bcpu.int_reg[0], 17);
}

#[test]
fn test_add_with_rptr() {
    let mut bcpu = CPU::new();
    bcpu.int_reg[0] = 21;
    bcpu.int_reg[2] = 33;
    bcpu.memory[33] = Some(42);
    exec(&mut bcpu, "add", "r0", "&r2");
    assert_eq!(bcpu.int_reg[0], 63);
}

#[test]
fn test_add_with_mptr() {
    let mut bcpu = CPU::new();
    bcpu.int_reg[0] = 444;
    bcpu.memory[33] = Some(42);
    bcpu.memory[42] = Some(60);
    exec(&mut bcpu, "add", "r0", "&$33");
    assert_eq!(bcpu.int_reg[0], 504);
}

#[test]
fn hlt_test() {
    let mut bcpu = CPU::new();
    bcpu.running = true;
    exec(&mut bcpu, "hlt", "", "");
    assert_eq!(bcpu.running, false);
}

#[test]
fn jo_test_no_jump() {
    let mut bcpu = CPU::new();
    exec(&mut bcpu, "bo", "$300", "");
    assert_eq!(bcpu.pc, 1);
}

#[test]
fn jz_test_jump() {
    let mut bcpu = CPU::new();
    exec(&mut bcpu, "cmp", "r0", "r0");
    assert_eq!(bcpu.zflag, true);
    exec(&mut bcpu, "bz", "$300", "");
    assert_eq!(bcpu.pc, 300);
}

#[test]
fn jz_test_no_jump() {
    let mut bcpu = CPU::new();
    exec(&mut bcpu, "bz", "$120", "");
    assert_eq!(bcpu.pc, 1);
}

#[test]
fn jmp_test_jump() {
    let mut bcpu = CPU::new();
    exec(&mut bcpu, "jmp", "$320", "");
    assert_eq!(bcpu.pc, 320);
}

#[test]
fn push_then_pop_gives_the_value_back() {
    let mut bcpu = CPU::new();
    bcpu.int_reg[1] = 4321;
    let sp = bcpu.sp;
    exec(&mut bcpu, "push", "r1", "");
    exec(&mut bcpu, "pop", "r3", "");
    assert_eq!(bcpu.int_reg[3], 4321);
    assert_eq!(bcpu.sp, sp);
    assert_eq!(bcpu.pc, 2);
}

#[test]
fn store_then_load_gives_the_clamped_word_back() {
    let mut bcpu = CPU::new();
    bcpu.int_reg[0] = 40000;
    exec(&mut bcpu, "st", "$200", "r0");
    exec(&mut bcpu, "ld", "r1", "$200");
    assert_eq!(bcpu.int_reg[1], 32767);
    bcpu.int_reg[0] = 1234;
    exec(&mut bcpu, "st", "$201", "r0");
    exec(&mut bcpu, "ld", "r2", "$201");
    assert_eq!(bcpu.int_reg[2], 1234);
}

#[test]
fn float_registers_go_to_the_float_unit() {
    let mut bcpu = CPU::new();
    let r = bcpu.execute_instruction(&Instruction::MOV(Argument::Register(6), Argument::Literal(3)));
    assert!(matches!(r, Ok(Completion::FloatUnit)));
    assert_eq!(bcpu.pc, 0);
}

#[test]
fn decodes_the_instruction_register() {
    let mut bcpu = CPU::new();
    bcpu.ir = 4610;
    assert!(bcpu.decode_instruction() == Instruction::ADD(Argument::Register(1), Argument::Register(2)));
    bcpu.ir = 0;
    assert!(bcpu.decode_instruction() == Instruction::HLT);
}

#[test]
fn low_registers_hold_signed_sixteen_bit_values() {
    let mut bcpu = CPU::new();
    assert!(bcpu.check_overflow(-32768, 0).is_ok());
    assert!(bcpu.check_overflow(32767, 3).is_ok());
    assert!(!bcpu.oflag);
    assert!(bcpu.check_overflow(32768, 1).is_err());
    assert!(bcpu.oflag);
    let mut bcpu = CPU::new();
    assert!(bcpu.check_overflow(40000, 4).is_ok());
    assert!(bcpu.check_overflow(-1, 5).is_err());
    let mut bcpu = CPU::new();
    bcpu.set_register_value(&Argument::Register(0), 40000).unwrap();
    assert_eq!(bcpu.int_reg[0], 0);
    assert!(bcpu.oflag);
    let mut bcpu = CPU::new();
    bcpu.set_register_value(&Argument::Register(4), 40000).unwrap();
    assert_eq!(bcpu.int_reg[4], 40000);
    assert!(!bcpu.oflag);
    let mut bcpu = CPU::new();
    exec(&mut bcpu, "mov", "r1", "32767");
    assert_eq!(bcpu.int_reg[1], 32767);
    bcpu.int_reg[4] = 40000;
    exec(&mut bcpu, "mov", "r1", "r4");
    assert_eq!(bcpu.int_reg[1], 32767);
    assert!(bcpu.oflag);
}

#[test]
fn division_by_zero_and_empty_return_carry_no_explanation() {
    let mut bcpu = CPU::new();
    match bcpu.handle_div(&Argument::Register(0), &Argument::Literal(0)) {
        Err(belle::cpu::UnrecoverableError::DivideByZero(_, _, None)) => {}
        _ => panic!("expected a division by zero without explanation"),
    }
    let mut bcpu = CPU::new();
    bcpu.sp = 88;
    bcpu.bp = 123;
    match bcpu.handle_ret() {
        Err(belle::cpu::UnrecoverableError::StackUnderflow(_, _, None)) => {}
        _ => panic!("expected a stack underflow without explanation"),
    }
}

#[test]
fn jumps_to_resolved_targets() {
    let mut bcpu = CPU::new();
    bcpu.zflag = true;
    assert_eq!(bcpu.branch_taken(&Instruction::BZ(Argument::RegPtr(6))), Some(true));
    assert_eq!(bcpu.branch_taken(&Instruction::BNZ(Argument::RegPtr(6))), Some(false));
    assert_eq!(bcpu.branch_taken(&Instruction::JMP(Argument::MemAddr(3))), Some(true));
    assert_eq!(bcpu.branch_taken(&Instruction::HLT), None);
    bcpu.pushret = false;
    assert!(!bcpu.resolved_jump_traps());
    bcpu.jump_resolved(Some(40000)).unwrap();
    assert_eq!(bcpu.pc, 40000);
    // the return address is pushed, which moves past the jump, before the
    // target is found to lie outside memory
    bcpu.pushret = true;
    bcpu.pc = 12;
    assert!(bcpu.jump_resolved(None).is_err());
    assert_eq!(bcpu.pc, 13);
}
