use assembler::instruction::{AbsLabel, Instruction, RelLabel};
use assembler::numeral::parse_radix;
use assembler::parse::{extract_command, parse_two_registers};
use assembler::program::word_to_bits;
use assembler::register::register_from_str;

#[test]
fn test_and_scenario_word() {
    let i = Instruction::try_from("and $t2, $s7").unwrap();
    assert_eq!(i, Instruction::And { rs: 10, rt: 23 });
    assert_eq!(i.encode().unwrap(), 0x11570000);
}

#[test]
fn test_addi_scenario_word() {
    let i = Instruction::try_from("addi $t2, 657").unwrap();
    assert_eq!(i.opcode(), 2);
    assert_eq!(i.encode().unwrap(), 0x09400291);
}

#[test]
fn test_lw_scenario_word() {
    let i = Instruction::try_from("lw $t7, 657($t2)").unwrap();
    assert_eq!(i, Instruction::Lw { rt: 15, imm: 657, rs: 10 });
    assert_eq!(i.opcode(), 12);
    assert_eq!(i.encode().unwrap(), 0x314F0291);
}

#[test]
fn test_b_scenario_word() {
    let mut i = Instruction::try_from("b L0").unwrap();
    assert_eq!(i.opcode(), 14);
    i.set_abs_addr(0xA7FFF);
    assert_eq!(i.encode().unwrap(), 0x380A7FFF);
}

#[test]
fn test_floating_label_refused() {
    let b = Instruction::try_from("b L0").unwrap();
    match b.encode() {
        Err(assembler::error::AssemblerError::FloatingLabel(n)) => assert_eq!(n, "L0"),
        other => panic!("expected floating-label, got {:?}", other),
    }
    let bcy = Instruction::try_from("bcy L1").unwrap();
    assert!(matches!(
        bcy.encode(),
        Err(assembler::error::AssemblerError::FloatingLabel(_))
    ));
}

#[test]
fn test_opcode_round_trip_all_variants() {
    let all: Vec<Instruction> = vec![
        Instruction::Add { rs: 1, rt: 2 },
        Instruction::Comp { rs: 3, rt: 4 },
        Instruction::AddImm { rs: 5, imm: 600 },
        Instruction::CompImm { rs: 6, imm: 7 },
        Instruction::And { rs: 8, rt: 9 },
        Instruction::Xor { rs: 10, rt: 11 },
        Instruction::Sll { rs: 12, sh: 3 },
        Instruction::Srl { rs: 13, sh: 4 },
        Instruction::Sra { rs: 14, sh: 5 },
        Instruction::Sllv { rs: 15, rt: 16 },
        Instruction::Srlv { rs: 17, rt: 18 },
        Instruction::Srav { rs: 19, rt: 20 },
        Instruction::Lw { rt: 21, imm: 65535, rs: 22 },
        Instruction::Sw { rt: 23, imm: 1, rs: 24 },
        Instruction::B { label: AbsLabel { name: String::from("a"), addr: Some(0x3FFFFFF) } },
        Instruction::Br { rs: 25 },
        Instruction::Bltz { rs: 26, label: RelLabel { name: String::from("b"), addr: Some(2) } },
        Instruction::Bz { rs: 27, label: RelLabel { name: String::from("c"), addr: Some(0xFFFE) } },
        Instruction::Bnz { rs: 28, label: RelLabel { name: String::from("d"), addr: Some(4) } },
        Instruction::Bl { label: AbsLabel { name: String::from("e"), addr: Some(16) } },
        Instruction::Bcy { label: RelLabel { name: String::from("f"), addr: Some(5) } },
        Instruction::Bncy { label: RelLabel { name: String::from("g"), addr: Some(6) } },
    ];
    for (k, i) in all.iter().enumerate() {
        assert_eq!(i.opcode() as usize, k);
        let w = i.encode().unwrap();
        assert_eq!(w >> 26, i.opcode() as u32);
    }
}

#[test]
fn test_two_reg_words_distinct() {
    let mut words = Vec::new();
    for rs in 0u8..32 {
        for rt in 0u8..32 {
            words.push(Instruction::And { rs, rt }.encode().unwrap());
            words.push(Instruction::Xor { rs, rt }.encode().unwrap());
        }
    }
    let mut sorted = words.clone();
    sorted.sort();
    sorted.dedup();
    assert_eq!(sorted.len(), words.len());
}

#[test]
fn test_word_to_bits_renders_big_endian() {
    assert_eq!(word_to_bits(0x11570000), "00010001010101110000000000000000");
    assert_eq!(word_to_bits(0), "00000000000000000000000000000000");
    assert_eq!(word_to_bits(0xFFFFFFFF), "11111111111111111111111111111111");
    assert_eq!(word_to_bits(1), "00000000000000000000000000000001");
    assert_eq!(word_to_bits(0x80000000), "10000000000000000000000000000000");
}

#[test]
fn test_parse_radix_prefixes() {
    assert_eq!(parse_radix("0x20"), (16, "20"));
    assert_eq!(parse_radix("0b101"), (2, "101"));
    assert_eq!(parse_radix("0o17"), (8, "17"));
    assert_eq!(parse_radix("657"), (10, "657"));
    assert_eq!(parse_radix("7"), (10, "7"));
}

#[test]
fn test_register_table() {
    assert_eq!(register_from_str("$zero"), Some(0));
    assert_eq!(register_from_str("$at"), Some(1));
    assert_eq!(register_from_str("$sp"), Some(29));
    assert_eq!(register_from_str("$ra"), Some(31));
    assert_eq!(register_from_str("$t7"), Some(15));
    assert_eq!(register_from_str("$s7"), Some(23));
    assert_eq!(register_from_str("$q0"), None);
    assert_eq!(register_from_str("zero"), None);
}

#[test]
fn test_extract_command_splits_at_first_blank() {
    assert_eq!(extract_command("add $t0, $t1"), Some(("add", "$t0, $t1")));
    assert_eq!(extract_command("nospace"), None);
}

#[test]
fn test_parse_two_registers_direct() {
    assert_eq!(parse_two_registers("$t0 , $t1"), Ok((8, 9)));
    assert!(parse_two_registers("$t0").is_err());
}
