use crabs::{Crab, OpCode, Register, RuntimeFault};

#[test]
fn test_parse_op() {
    let mut crab = Crab::new();
    let code = r#"
        # TEST BLAH
        MOV 1 A
        ADD 1 A
        SUB 1 A
        NEG A
        JRO -1
        JRO A
        LABEL:
        JMP LABEL
    "#;
    crab.load_code(code).unwrap();
}

#[test]
fn test_step() {
    let mut crab = Crab::new();
    let code = r#"
            MOV 1 A
            ADD 1 A
            SUB 1 A
            NEG A
            JRO A
        LABEL:
            SUB 1 A
            JGZ LABEL
    "#;
    crab.load_code(code).unwrap();
    crab.execute().unwrap();
}

fn loaded(code: &str) -> Crab {
    let mut crab = Crab::new();
    crab.load_code(code).unwrap();
    crab
}

#[test]
fn arithmetic_scenario_ends_at_minus_one() {
    let mut crab = loaded("MOV 1 A\nADD 1 A\nSUB 1 A\nNEG A");
    let mut seen = vec![];
    for _ in 0..4 {
        crab.step().unwrap();
        seen.push(crab.get_reg(Register::A));
    }
    assert_eq!(seen, vec![1, 2, 1, -1]);
    assert_eq!(crab.ip, 4);
    assert!(crab.stopped());
    assert_eq!(crab.step(), Err(RuntimeFault::Halted));
}

#[test]
fn relative_jump_before_start_fails() {
    let mut crab = loaded("JRO -1");
    assert_eq!(crab.step(), Err(RuntimeFault::BadJump));
    assert_eq!(crab.ip, 0);
}

#[test]
fn bad_line_reports_its_index_and_keeps_program() {
    let mut crab = loaded("NOP\nRCW");
    assert_eq!(crab.load_code("NOP\nFLY 3\nNOP"), Err(1));
    assert_eq!(crab.code.len(), 2);
    assert!(matches!(crab.code[1], OpCode::RCW));
}

#[test]
fn jez_lands_on_the_label_itself() {
    let mut crab = loaded("JEZ HERE\nNOP\nHERE:\nNOP");
    *crab.get_reg_mut(Register::M).unwrap() = 1;
    crab.step().unwrap();
    assert_eq!(crab.ip, 2);
    assert_eq!((crab.pos_x, crab.pos_y), (2, 3));
    crab.step().unwrap();
    assert_eq!(crab.ip, 3);
    assert_eq!((crab.pos_x, crab.pos_y), (2, 3));
}

#[test]
fn jez_not_taken_when_accumulator_nonzero() {
    let mut crab = loaded("MOV 5 A\nJEZ HERE\nNOP\nHERE:");
    crab.step().unwrap();
    crab.step().unwrap();
    assert_eq!(crab.ip, 2);
}

#[test]
fn label_loop_is_caught_as_runaway() {
    let mut crab = loaded("LABEL:\nJMP LABEL");
    assert_eq!(crab.execute(), Err(RuntimeFault::Runaway));
    assert!(!crab.stopped());
}

#[test]
fn reset_twice_restores_initial_state() {
    let mut crab = loaded("MOV 1 M\nRCW\nMOV 7 A\nNOP");
    crab.execute().unwrap();
    assert_ne!((crab.pos_x, crab.pos_y), (3, 3));
    crab.reset();
    crab.reset();
    for r in [Register::A, Register::M, Register::H, Register::V, Register::R] {
        assert_eq!(crab.get_reg(r), 0);
    }
    assert_eq!(crab.ip, 0);
    assert_eq!((crab.pos_x, crab.pos_y), (3, 3));
    assert_eq!(crab.code.len(), 4);
}

fn trace(crab: &mut Crab) -> Vec<(usize, i32, i32, i32, i32)> {
    let mut t = vec![];
    while !crab.stopped() {
        crab.step().unwrap();
        t.push((crab.ip, crab.get_reg(Register::A), crab.get_reg(Register::R), crab.pos_x, crab.pos_y));
    }
    t
}

#[test]
fn reload_after_reset_replays_the_run() {
    let text = "MOV 3 A\nMOV 1 M\nTOP:\nRCC\nSUB 1 A\nJGZ TOP\nJRO 1\nNEG M";
    let mut crab = loaded(text);
    let first = trace(&mut crab);
    crab.reset();
    crab.load_code(text).unwrap();
    let second = trace(&mut crab);
    assert_eq!(first, second);
    assert!(first.len() > 5);
}

#[test]
fn closed_program_runs_to_completion() {
    let mut crab = loaded("MOV 2 A\nL:\nSUB 1 A\nJNZ L\nJRO 2\nNOP\nJLZ L");
    assert_eq!(crab.execute(), Ok(()));
    assert_eq!(crab.get_reg(Register::A), 0);
}

#[test]
fn swapped_lines_still_load() {
    let a = loaded("MOV 1 A\nNEG A\nRCW");
    let b = loaded("RCW\nNEG A\nMOV 1 A");
    assert!(matches!(a.code[0], OpCode::MOVI(1, Register::A)));
    assert!(matches!(b.code[2], OpCode::MOVI(1, Register::A)));
    assert!(matches!(a.code[2], OpCode::RCW));
    assert!(matches!(b.code[0], OpCode::RCW));
}

#[test]
fn missing_label_fails() {
    let mut crab = loaded("JMP NOWHERE");
    assert_eq!(crab.step(), Err(RuntimeFault::LabelNotFound));
    assert_eq!(crab.ip, 0);
}

#[test]
fn step_on_empty_program_fails_halted() {
    let mut crab = Crab::new();
    assert!(crab.stopped());
    assert_eq!(crab.step(), Err(RuntimeFault::Halted));
    assert_eq!(crab.execute(), Err(RuntimeFault::Halted));
}

#[test]
fn first_label_of_a_name_wins() {
    let mut crab = loaded("NOP\nX:\nX:\nJMP X");
    for _ in 0..4 {
        crab.step().unwrap();
    }
    assert_eq!(crab.ip, 1);
}

#[test]
fn relative_jump_by_register() {
    let mut crab = loaded("MOV 2 A\nJRO A\nNOP\nMOV 9 A");
    crab.step().unwrap();
    crab.step().unwrap();
    assert_eq!(crab.ip, 3);
    crab.step().unwrap();
    assert_eq!(crab.get_reg(Register::A), 9);
}

#[test]
fn relative_jump_past_the_end_halts() {
    let mut crab = loaded("JRO 5\nNOP");
    crab.step().unwrap();
    assert_eq!(crab.ip, 5);
    assert!(crab.stopped());
    assert_eq!(crab.step(), Err(RuntimeFault::Halted));
}

#[test]
fn rotation_wraps_both_ways() {
    let mut crab = loaded("RCC\nRCW\nRCW\nRCW\nRCW\nRCW");
    crab.step().unwrap();
    assert_eq!(crab.get_reg(Register::R), 3);
    let mut seen = vec![];
    for _ in 0..5 {
        crab.step().unwrap();
        seen.push(crab.get_reg(Register::R));
    }
    assert_eq!(seen, vec![0, 1, 2, 3, 0]);
}

#[test]
fn moves_sideways_for_each_facing() {
    let mut crab = Crab::new();
    *crab.get_reg_mut(Register::M).unwrap() = 5;
    let mut dirs = vec![];
    for _ in 0..4 {
        dirs.push(crab.dir());
        crab.load_code("RCW").unwrap();
        crab.ip = 0;
        crab.step().unwrap();
    }
    assert_eq!(dirs, vec![(-1, 0), (0, -1), (1, 0), (0, 1)]);
    // one cell per instruction, each along the axis orthogonal to the facing
    assert_eq!((crab.pos_x, crab.pos_y), (3, 3));
}

#[test]
fn negative_motor_walks_the_other_way() {
    let mut crab = loaded("MOV -3 M\nNOP\nNOP");
    crab.execute().unwrap();
    // the first instruction moves nothing: M is still zero when it starts
    assert_eq!((crab.pos_x, crab.pos_y), (5, 3));
}

#[test]
fn motor_does_nothing_once_halted() {
    let mut crab = Crab::new();
    *crab.get_reg_mut(Register::M).unwrap() = 1;
    crab.motor();
    assert_eq!((crab.pos_x, crab.pos_y), (3, 3));
}

#[test]
fn comments_and_labels_do_not_move() {
    let mut crab = loaded("# walk\nL:");
    *crab.get_reg_mut(Register::M).unwrap() = 1;
    crab.execute().unwrap();
    assert_eq!((crab.pos_x, crab.pos_y), (3, 3));
}

#[test]
fn facing_register_cannot_be_written() {
    let mut crab = loaded("MOV 2 R\nADD 1 R\nNEG R");
    assert!(crab.get_reg_mut(Register::R).is_none());
    crab.execute().unwrap();
    assert_eq!(crab.get_reg(Register::R), 0);
}

#[test]
fn sensor_leaves_the_crab_alone() {
    let mut crab = loaded("NOP");
    *crab.get_reg_mut(Register::H).unwrap() = 4;
    crab.sensor();
    assert_eq!(crab.get_reg(Register::H), 4);
    assert_eq!(crab.ip, 0);
}

#[test]
fn register_to_register_arithmetic() {
    let mut crab = loaded("MOV 6 A\nMOV A H\nADD H A\nSUB 2 A\nMOV 4 V\nSUB V A");
    crab.execute().unwrap();
    assert_eq!(crab.get_reg(Register::H), 6);
    assert_eq!(crab.get_reg(Register::A), 6);
}

#[test]
fn arithmetic_wraps_at_the_edges() {
    let mut crab = loaded("MOV 2147483647 A\nADD 1 A\nMOV -2147483648 H\nNEG H\nSUB 1 H");
    crab.execute().unwrap();
    assert_eq!(crab.get_reg(Register::A), i32::MIN);
    assert_eq!(crab.get_reg(Register::H), i32::MAX);
}

#[test]
fn jumps_on_sign() {
    let mut crab = loaded("MOV -1 A\nJLZ N\nNOP\nN:\nJGZ N\nJNZ E\nNOP\nE:");
    crab.step().unwrap();
    crab.step().unwrap();
    assert_eq!(crab.ip, 3);
    crab.step().unwrap();
    crab.step().unwrap();
    assert_eq!(crab.ip, 5);
    crab.step().unwrap();
    assert_eq!(crab.ip, 7);
}
