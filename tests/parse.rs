use crabs::{Crab, OpCode, Register, RuntimeFault};

fn parse(line: &str) -> Option<OpCode> {
    OpCode::parse(line)
}

#[test]
fn mnemonics_with_operands() {
    assert!(matches!(parse("MOV 12 A"), Some(OpCode::MOVI(12, Register::A))));
    assert!(matches!(parse("MOV H V"), Some(OpCode::MOV(Register::H, Register::V))));
    assert!(matches!(parse("ADD -4 M"), Some(OpCode::ADDI(-4, Register::M))));
    assert!(matches!(parse("ADD A A"), Some(OpCode::ADD(Register::A, Register::A))));
    assert!(matches!(parse("SUB 0 H"), Some(OpCode::SUBI(0, Register::H))));
    assert!(matches!(parse("SUB R A"), Some(OpCode::SUB(Register::R, Register::A))));
    assert!(matches!(parse("NEG V"), Some(OpCode::NEG(Register::V))));
    assert!(matches!(parse("JRO -3"), Some(OpCode::JROI(-3))));
    assert!(matches!(parse("JRO M"), Some(OpCode::JRO(Register::M))));
    assert!(matches!(parse("NOP"), Some(OpCode::NOP)));
    assert!(matches!(parse("RCW"), Some(OpCode::RCW)));
    assert!(matches!(parse("RCC"), Some(OpCode::RCC)));
}

#[test]
fn label_jumps_keep_the_name() {
    for (line, name) in [("JMP TOP", "TOP"), ("JEZ a1", "a1"), ("JNZ x", "x"), ("JGZ END", "END"), ("JLZ Q", "Q")] {
        match parse(line) {
            Some(OpCode::JMP(l)) | Some(OpCode::JEZ(l)) | Some(OpCode::JNZ(l)) | Some(OpCode::JGZ(l))
            | Some(OpCode::JLZ(l)) => assert_eq!(l, name),
            other => panic!("{:?}", other),
        }
    }
    assert!(matches!(parse("JEZ X"), Some(OpCode::JEZ(_))));
    assert!(matches!(parse("JLZ X"), Some(OpCode::JLZ(_))));
}

#[test]
fn labels_and_comments() {
    match parse("LOOP:") {
        Some(OpCode::LABEL(l)) => assert_eq!(l, "LOOP"),
        other => panic!("{:?}", other),
    }
    match parse("END: trailing words") {
        Some(OpCode::LABEL(l)) => assert_eq!(l, "END"),
        other => panic!("{:?}", other),
    }
    match parse("# MOV 1 A") {
        Some(OpCode::COMMENT(t)) => assert_eq!(t, "# MOV 1 A"),
        other => panic!("{:?}", other),
    }
    match parse("#") {
        Some(OpCode::COMMENT(t)) => assert_eq!(t, "#"),
        other => panic!("{:?}", other),
    }
}

#[test]
fn blank_line_is_an_empty_comment() {
    match parse("") {
        Some(OpCode::COMMENT(t)) => assert_eq!(t, ""),
        other => panic!("{:?}", other),
    }
}

#[test]
fn words_are_split_on_any_white_space() {
    assert!(matches!(parse("\tMOV \u{3000} 7\u{a0}A  "), Some(OpCode::MOVI(7, Register::A))));
    assert!(matches!(parse("NOP extra words"), Some(OpCode::NOP)));
}

#[test]
fn rejected_lines() {
    for line in [
        "FLY",
        "mov 1 A",
        "MOV",
        "MOV 1",
        "MOV 1 X",
        "MOV X A",
        "MOV 1-2 A",
        "MOV - A",
        "MOV -- A",
        "MOV 2147483648 A",
        "MOV -2147483649 A",
        "MOV 99999999999999999999 A",
        "NEG",
        "NEG 3",
        "JRO",
        "JRO Z",
        "JMP",
        "ADD +1 A",
    ] {
        assert!(parse(line).is_none(), "{}", line);
    }
}

#[test]
fn literal_range_edges() {
    assert!(matches!(parse("MOV 2147483647 A"), Some(OpCode::MOVI(2147483647, Register::A))));
    assert!(matches!(parse("MOV -2147483648 A"), Some(OpCode::MOVI(i32::MIN, Register::A))));
    assert!(matches!(parse("MOV -0 A"), Some(OpCode::MOVI(0, Register::A))));
    assert!(matches!(parse("MOV 007 A"), Some(OpCode::MOVI(7, Register::A))));
}

#[test]
fn register_names() {
    assert_eq!(Register::parse("A"), Some(Register::A));
    assert_eq!(Register::parse("M"), Some(Register::M));
    assert_eq!(Register::parse("H"), Some(Register::H));
    assert_eq!(Register::parse("V"), Some(Register::V));
    assert_eq!(Register::parse("R"), Some(Register::R));
    assert_eq!(Register::parse("a"), None);
    assert_eq!(Register::parse("AA"), None);
    assert_eq!(Register::parse(""), None);
}

#[test]
fn lines_are_trimmed_and_counted() {
    let mut crab = Crab::new();
    crab.load_code("  # note  \r\n\nX:\r\n").unwrap();
    assert_eq!(crab.code.len(), 3);
    match &crab.code[0] {
        OpCode::COMMENT(t) => assert_eq!(t, "# note"),
        other => panic!("{:?}", other),
    }
    assert!(matches!(&crab.code[1], OpCode::COMMENT(t) if t.is_empty()));
    assert!(matches!(&crab.code[2], OpCode::LABEL(l) if l == "X"));
}

#[test]
fn empty_text_loads_an_empty_program() {
    let mut crab = Crab::new();
    crab.load_code("NOP").unwrap();
    crab.load_code("").unwrap();
    assert_eq!(crab.code.len(), 0);
}

#[test]
fn first_bad_line_is_reported() {
    let mut crab = Crab::new();
    assert_eq!(crab.load_code("NOP\nNOP\nBAD\nWORSE"), Err(2));
    assert_eq!(crab.load_code("BAD"), Err(0));
    assert_eq!(crab.code.len(), 0);
}

#[test]
fn load_keeps_registers_and_position() {
    let mut crab = Crab::new();
    crab.load_code("MOV 4 A\nMOV 1 M\nNOP").unwrap();
    crab.execute().unwrap();
    crab.load_code("NOP").unwrap();
    assert_eq!(crab.get_reg(Register::A), 4);
    assert_eq!(crab.ip, 3);
    assert_eq!((crab.pos_x, crab.pos_y), (2, 3));
}

#[test]
fn fault_messages() {
    assert_eq!(RuntimeFault::BadJump.message(), "Cannot jump to that location");
    assert_eq!(RuntimeFault::Runaway.message(), "executed more than 1000000 cycles");
    assert!(!RuntimeFault::Halted.message().is_empty());
    assert!(!RuntimeFault::LabelNotFound.message().is_empty());
}

#[test]
fn from_str_parses_and_rejects() {
    assert!(matches!("NEG M".parse::<OpCode>(), Ok(OpCode::NEG(Register::M))));
    assert_eq!("FLY".parse::<OpCode>().unwrap_err(), "Not a valid instruction!");
    assert_eq!("V".parse::<Register>(), Ok(Register::V));
    assert!("Q".parse::<Register>().is_err());
}

#[test]
fn from_str_on_each_instruction_form() {
    assert!(matches!("MOV 1 A".parse::<OpCode>(), Ok(OpCode::MOVI(1, Register::A))));
    assert!(matches!("ADD 1 A".parse::<OpCode>(), Ok(OpCode::ADDI(1, Register::A))));
    assert!(matches!("SUB 1 A".parse::<OpCode>(), Ok(OpCode::SUBI(1, Register::A))));
    assert!(matches!("NEG A".parse::<OpCode>(), Ok(OpCode::NEG(Register::A))));
    assert!(matches!("JRO -1".parse::<OpCode>(), Ok(OpCode::JROI(-1))));
    assert!(matches!("JRO A".parse::<OpCode>(), Ok(OpCode::JRO(Register::A))));
    assert!(matches!("LABEL:".parse::<OpCode>(), Ok(OpCode::LABEL(l)) if l == "LABEL"));
    assert!(matches!("JMP LABEL".parse::<OpCode>(), Ok(OpCode::JMP(l)) if l == "LABEL"));
    assert!(matches!("# TEST BLAH".parse::<OpCode>(), Ok(OpCode::COMMENT(t)) if t == "# TEST BLAH"));
    assert!("MOV 1-2 A".parse::<OpCode>().is_err());
    assert!("MOV 1 X".parse::<OpCode>().is_err());
    assert!("mov 1 A".parse::<OpCode>().is_err());
    assert!("JMP".parse::<OpCode>().is_err());
    for r in [Register::A, Register::M, Register::H, Register::V, Register::R] {
        assert_eq!(format!("{:?}", r).parse::<Register>(), Ok(r));
    }
    for s in ["X", "a", "", "AA"] {
        assert!(s.parse::<Register>().is_err());
    }
}
