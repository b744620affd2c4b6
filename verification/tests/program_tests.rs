use assembler::error::AssemblerError;
use assembler::program::{detect_label, LabelTable, Program};

fn lines(src: &[&str]) -> Vec<String> {
    src.iter().map(|s| String::from(*s)).collect()
}

#[test]
fn test_detect_label_lines() {
    assert_eq!(detect_label("loop:"), Some(String::from("loop")));
    assert_eq!(detect_label("foo_1:"), Some(String::from("foo_1")));
    assert_eq!(detect_label("add $t0, $t1"), None);
    assert_eq!(detect_label(""), None);
    assert_eq!(detect_label(":"), None);
}

#[test]
fn test_label_table_overwrites() {
    let mut t = LabelTable::new();
    t.insert(String::from("a"), 1);
    t.insert(String::from("b"), 2);
    t.insert(String::from("a"), 7);
    assert_eq!(t.get("a"), Some(7));
    assert_eq!(t.get("b"), Some(2));
    assert_eq!(t.get("c"), None);
}

#[test]
fn test_pipeline_forward_and_backward() {
    let src = lines(&[
        "start:",
        "mov $t1, $t2",
        "push $t0",
        "bz $t0, end",
        "b start",
        "end:",
    ]);
    let mut prog = Program::parse_lines(&src).unwrap();
    assert_eq!(prog.instrs.len(), 6);
    prog.assign_labels(0).unwrap();
    let words = prog.encode().unwrap();
    assert_eq!(
        words,
        vec![
            0x15290000, // xor $t1, $t1
            0x012A0000, // add $t1, $t2
            0x37A80000, // sw $t0, 0($sp)
            0x0BA0FFFC, // addi $sp, -4
            0x45000001, // bz $t0, +1 word
            0x38000000, // b -> absolute address 0
        ]
    );
}

#[test]
fn test_backward_branch_displacement() {
    let src = lines(&["loop:", "add $t0, $t1", "bnz $t0, loop"]);
    let mut prog = Program::parse_lines(&src).unwrap();
    prog.assign_labels(0).unwrap();
    let words = prog.encode().unwrap();
    // bnz at index 1 targets index 0: displacement 0 - 1 - 1 = -2 -> 0xFFFE
    assert_eq!(words[1] & 0xFFFF, 0xFFFE);
    assert_eq!(words[1], 0x4900FFFE);
}

#[test]
fn test_base_offset_applied_to_absolute_labels() {
    let src = lines(&["add $t0, $t1", "tgt:", "b tgt"]);
    let mut prog = Program::parse_lines(&src).unwrap();
    prog.assign_labels(0x100).unwrap();
    let words = prog.encode().unwrap();
    // tgt is at instruction index 1: address 0x100 + 4 * 1 = 0x104
    assert_eq!(words[1], (14 << 26) | 0x104);
}

#[test]
fn test_undefined_label_is_an_error() {
    let src = lines(&["b NoSuchLabel"]);
    let mut prog = Program::parse_lines(&src).unwrap();
    match prog.assign_labels(0) {
        Err(AssemblerError::UndefinedLabel(n)) => assert_eq!(n, "NoSuchLabel"),
        other => panic!("expected undefined-label, got {:?}", other),
    }
}

#[test]
fn test_undefined_relative_label_is_an_error() {
    let src = lines(&["bz $t0, nowhere"]);
    let mut prog = Program::parse_lines(&src).unwrap();
    assert!(matches!(
        prog.assign_labels(0),
        Err(AssemblerError::UndefinedLabel(_))
    ));
}

#[test]
fn test_first_bad_line_aborts_parse() {
    let src = lines(&["add $t0, $t1", "frob $t0, $t1", "xor $t0, $t1"]);
    match Program::parse_lines(&src) {
        Err(AssemblerError::UnknownInstruction(m)) => assert_eq!(m, "frob"),
        Err(other) => panic!("expected unknown-instruction, got {:?}", other),
        Ok(_) => panic!("expected unknown-instruction, got a parsed program"),
    }
}

#[test]
fn test_pseudo_lines_advance_count_by_two() {
    let src = lines(&["push $t0", "after:", "pop $t0"]);
    let prog = Program::parse_lines(&src).unwrap();
    assert_eq!(prog.instrs.len(), 4);
    assert_eq!(prog.labels.get("after"), Some(2));
}

#[test]
fn test_label_redefinition_overwrites() {
    let src = lines(&["l:", "add $t0, $t1", "l:", "comp $t0, $t1"]);
    let prog = Program::parse_lines(&src).unwrap();
    assert_eq!(prog.labels.get("l"), Some(1));
}

#[test]
fn test_encode_order_preserved() {
    let src = lines(&["add $t0, $t1", "comp $t2, $t3", "xor $a0, $a1"]);
    let mut prog = Program::parse_lines(&src).unwrap();
    prog.assign_labels(0).unwrap();
    let words = prog.encode().unwrap();
    assert_eq!(words.len(), 3);
    assert_eq!(words[0] >> 26, 0);
    assert_eq!(words[1] >> 26, 1);
    assert_eq!(words[2] >> 26, 5);
}
