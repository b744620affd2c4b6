use assembler::error::AssemblerError;
use assembler::instruction::Instruction;

#[test]
fn test_reg_instr() {
    let instr = "add $t2   ,     $a0";
    let parsed_instr = Instruction::try_from(instr);
    assert!(parsed_instr.is_ok());
    assert_eq!(parsed_instr.unwrap(), Instruction::Add { rs: 10, rt: 4 });
}

#[test]
fn test_imm_instr() {
    let instr = "compi $t2   ,  0x20";
    let parsed_instr = Instruction::try_from(instr);
    assert!(parsed_instr.is_ok());
    assert_eq!(parsed_instr.unwrap(), Instruction::CompImm { rs: 10, imm: 32 });
}

#[test]
fn test_shamt_instr() {
    let instr = "sll $t2  ,   3";
    let parsed_instr = Instruction::try_from(instr);
    assert!(parsed_instr.is_ok());
    assert_eq!(parsed_instr.unwrap(), Instruction::Sll { rs: 10, sh: 3 });
}

#[test]
fn test_mem_instr() {
    let load = "lw $t1,  16($t2)";
    let load_instr = Instruction::try_from(load);
    assert!(load_instr.is_ok());
    assert_eq!(load_instr.unwrap(), Instruction::Lw { rt: 9, imm: 16, rs: 10 });
    let store = "sw $t1  ,  16($t2)";
    let store_instr = Instruction::try_from(store);
    assert!(store_instr.is_ok());
    assert_eq!(store_instr.unwrap(), Instruction::Sw { rt: 9, imm: 16, rs: 10 });
}

#[test]
fn test_branch_instrs() {
    let b = Instruction::try_from("b L0").unwrap();
    match b {
        Instruction::B { label } => {
            assert_eq!(label.name, "L0");
            assert_eq!(label.addr, None);
        }
        other => panic!("wrong variant: {:?}", other),
    }
    let bltz = Instruction::try_from("bltz $t0, back").unwrap();
    match bltz {
        Instruction::Bltz { rs, label } => {
            assert_eq!(rs, 8);
            assert_eq!(label.name, "back");
            assert_eq!(label.addr, None);
        }
        other => panic!("wrong variant: {:?}", other),
    }
    let br = Instruction::try_from("br $ra").unwrap();
    assert_eq!(br, Instruction::Br { rs: 31 });
}

#[test]
fn test_opcode_missing() {
    let r = Instruction::try_from("nospace");
    assert!(matches!(r, Err(AssemblerError::OpcodeMissing(_))));
}

#[test]
fn test_unknown_instruction() {
    let r = Instruction::try_from("frob $t0, $t1");
    match r {
        Err(AssemblerError::UnknownInstruction(m)) => assert_eq!(m, "frob"),
        other => panic!("expected unknown-instruction, got {:?}", other),
    }
}

#[test]
fn test_wrong_arg_count() {
    let r = Instruction::try_from("add $t0");
    assert_eq!(r, Err(AssemblerError::InvalidNoOfArgs(2, 1)));
    let r3 = Instruction::try_from("add $t0, $t1, $t2");
    assert_eq!(r3, Err(AssemblerError::InvalidNoOfArgs(2, 3)));
}

#[test]
fn test_unknown_register() {
    let r = Instruction::try_from("add $q9, $t0");
    match r {
        Err(AssemblerError::UnknownRegister(n)) => assert_eq!(n, "$q9"),
        other => panic!("expected unknown-register, got {:?}", other),
    }
}

#[test]
fn test_invalid_number() {
    let r = Instruction::try_from("addi $t0, 0xzz");
    match r {
        Err(AssemblerError::InvalidNumber(n)) => assert_eq!(n, "zz"),
        other => panic!("expected invalid-number, got {:?}", other),
    }
    let too_big = Instruction::try_from("addi $t0, 65536");
    assert!(matches!(too_big, Err(AssemblerError::InvalidNumber(_))));
    let too_negative = Instruction::try_from("addi $t0, -32769");
    assert!(matches!(too_negative, Err(AssemblerError::InvalidNumber(_))));
}

#[test]
fn test_invalid_mem_format() {
    let r = Instruction::try_from("lw $t1, 16[$t2]");
    assert!(matches!(r, Err(AssemblerError::InvalidInstruction(_))));
    let r2 = Instruction::try_from("lw $t1 16($t2)");
    assert!(matches!(r2, Err(AssemblerError::InvalidInstruction(_))));
}

#[test]
fn test_signed_immediate_pattern() {
    let r = Instruction::try_from("addi $t2, -0x10").unwrap();
    assert_eq!(r, Instruction::AddImm { rs: 10, imm: 0xfff0 });
    let edge = Instruction::try_from("addi $t0, -32768").unwrap();
    assert_eq!(edge, Instruction::AddImm { rs: 8, imm: 0x8000 });
    let minus_four = Instruction::try_from("addi $sp, -4").unwrap();
    assert_eq!(minus_four, Instruction::AddImm { rs: 29, imm: 0xfffc });
}

#[test]
fn test_radix_forms() {
    assert_eq!(
        Instruction::try_from("addi $t0, 0b101").unwrap(),
        Instruction::AddImm { rs: 8, imm: 5 }
    );
    assert_eq!(
        Instruction::try_from("addi $t0, 0o17").unwrap(),
        Instruction::AddImm { rs: 8, imm: 15 }
    );
    assert_eq!(
        Instruction::try_from("addi $t0, +657").unwrap(),
        Instruction::AddImm { rs: 8, imm: 657 }
    );
}

#[test]
fn test_pseudo_push_expansion() {
    let v = Instruction::from_str("push $t0").unwrap();
    assert_eq!(v.len(), 2);
    assert_eq!(v[0], Instruction::Sw { rt: 8, imm: 0, rs: 29 });
    assert_eq!(v[1], Instruction::AddImm { rs: 29, imm: 0xfffc });
}

#[test]
fn test_pseudo_pop_expansion() {
    let v = Instruction::from_str("pop $t3").unwrap();
    assert_eq!(v.len(), 2);
    assert_eq!(v[0], Instruction::AddImm { rs: 29, imm: 4 });
    assert_eq!(v[1], Instruction::Lw { rt: 11, imm: 0, rs: 29 });
}

#[test]
fn test_pseudo_mov_expansion() {
    let v = Instruction::from_str("mov $t1,$t2").unwrap();
    assert_eq!(v.len(), 2);
    assert_eq!(v[0], Instruction::Xor { rs: 9, rt: 9 });
    assert_eq!(v[1], Instruction::Add { rs: 9, rt: 10 });
}

#[test]
fn test_from_str_plain_instruction() {
    let v = Instruction::from_str("and $t2, $s7").unwrap();
    assert_eq!(v.len(), 1);
    assert_eq!(v[0], Instruction::And { rs: 10, rt: 23 });
}
