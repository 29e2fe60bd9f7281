use mcsim::lex::{assemble, labels_of, resolve, LexError};
use mcsim::op::{Condition, Label, Opcode, Pin, RegImm, Register, LOC};

fn no_labels() -> Vec<Option<Label>> {
    Vec::new()
}

#[test]
fn pins_are_read_by_name() {
    assert_eq!(Pin::lex_from_str("p0"), Ok(("", Pin::P0)));
    assert_eq!(Pin::lex_from_str("p1 x"), Ok((" x", Pin::P1)));
    assert_eq!(Pin::lex_from_str("x0"), Ok(("", Pin::X0)));
    assert_eq!(Pin::lex_from_str("x1"), Ok(("", Pin::X1)));
    assert_eq!(Pin::lex_from_str("x2"), Ok(("", Pin::X2)));
    assert_eq!(Pin::lex_from_str("x3rest"), Ok(("rest", Pin::X3)));
}

#[test]
fn what_is_no_pin_is_refused() {
    assert_eq!(Pin::lex_from_str("x4"), Err(LexError));
    assert_eq!(Pin::lex_from_str("P0"), Err(LexError));
    assert_eq!(Pin::lex_from_str("p"), Err(LexError));
    assert_eq!(Pin::lex_from_str(""), Err(LexError));
    assert_eq!(Pin::lex_from_str(" p0"), Err(LexError));
}

#[test]
fn registers_are_read_by_name() {
    assert_eq!(Register::lex_from_str("acc"), Ok(("", Register::Acc)));
    assert_eq!(Register::lex_from_str("dat,"), Ok((",", Register::Dat)));
    assert_eq!(Register::lex_from_str("x3"), Ok(("", Register::Pin(Pin::X3))));
    assert_eq!(Register::lex_from_str("ac"), Err(LexError));
}

#[test]
fn a_label_ends_at_the_first_colon() {
    assert_eq!(Label::lex_from_str("loop: nop"), Ok((" nop", Label(String::from("loop")))));
    assert_eq!(Label::lex_from_str("a:b:c"), Ok(("b:c", Label(String::from("a")))));
    assert_eq!(Label::lex_from_str(":x"), Ok(("x", Label(String::new()))));
    assert_eq!(Label::lex_from_str("two words:"), Ok(("", Label(String::from("two words")))));
}

#[test]
fn a_text_without_colon_has_no_label() {
    assert_eq!(Label::lex_from_str("mov 1 acc"), Err(LexError));
    assert_eq!(Label::lex_from_str(""), Err(LexError));
}

#[test]
fn guards_are_plus_and_minus() {
    assert_eq!(Condition::lex_from_str("+ nop"), Ok((" nop", Condition(true))));
    assert_eq!(Condition::lex_from_str("-"), Ok(("", Condition(false))));
    assert_eq!(Condition::lex_from_str("*"), Err(LexError));
}

#[test]
fn operands_are_registers_or_numbers() {
    assert_eq!(RegImm::lex_from_str("acc"), Ok(("", RegImm::Reg(Register::Acc))));
    assert_eq!(RegImm::lex_from_str("p1"), Ok(("", RegImm::Reg(Register::Pin(Pin::P1)))));
    assert_eq!(RegImm::lex_from_str("123 x"), Ok((" x", RegImm::Imm(123))));
    assert_eq!(RegImm::lex_from_str("0"), Ok(("", RegImm::Imm(0))));
    assert_eq!(RegImm::lex_from_str("007"), Ok(("", RegImm::Imm(7))));
    assert_eq!(RegImm::lex_from_str("12ab"), Ok(("ab", RegImm::Imm(12))));
}

#[test]
fn a_number_must_fit_the_signed_range() {
    assert_eq!(RegImm::lex_from_str("32767"), Ok(("", RegImm::Imm(32767))));
    assert_eq!(RegImm::lex_from_str("32768"), Err(LexError));
    assert_eq!(RegImm::lex_from_str("65535"), Err(LexError));
    assert_eq!(RegImm::lex_from_str("65536"), Err(LexError));
    assert_eq!(RegImm::lex_from_str("99999999999"), Err(LexError));
    assert_eq!(RegImm::lex_from_str("-1"), Err(LexError));
    assert_eq!(RegImm::lex_from_str(""), Err(LexError));
}

#[test]
fn operations_without_operand() {
    assert_eq!(Opcode::lex_from_str("nop", &no_labels()), Ok(("", Opcode::Nop)));
    assert_eq!(Opcode::lex_from_str("not", &no_labels()), Ok(("", Opcode::Not)));
    assert_eq!(Opcode::lex_from_str("nopx", &no_labels()), Ok(("x", Opcode::Nop)));
}

#[test]
fn operations_with_one_operand() {
    let l = no_labels();
    assert_eq!(Opcode::lex_from_str("slp 3", &l), Ok(("", Opcode::Slp(RegImm::Imm(3)))));
    assert_eq!(Opcode::lex_from_str("add acc", &l), Ok(("", Opcode::Add(RegImm::Reg(Register::Acc)))));
    assert_eq!(Opcode::lex_from_str("sub 10", &l), Ok(("", Opcode::Sub(RegImm::Imm(10)))));
    assert_eq!(
        Opcode::lex_from_str("mul x0", &l),
        Ok(("", Opcode::Mul(RegImm::Reg(Register::Pin(Pin::X0)))))
    );
    assert_eq!(Opcode::lex_from_str("dgt 2", &l), Ok(("", Opcode::Dgt(RegImm::Imm(2)))));
}

#[test]
fn operations_with_two_operands() {
    let l = no_labels();
    assert_eq!(
        Opcode::lex_from_str("mov 5 acc", &l),
        Ok(("", Opcode::MovReg(RegImm::Imm(5), Register::Acc)))
    );
    assert_eq!(
        Opcode::lex_from_str("mov p0 x1", &l),
        Ok(("", Opcode::MovReg(RegImm::Reg(Register::Pin(Pin::P0)), Register::Pin(Pin::X1))))
    );
    assert_eq!(
        Opcode::lex_from_str("dst 2 9", &l),
        Ok(("", Opcode::Dst(RegImm::Imm(2), RegImm::Imm(9))))
    );
    assert_eq!(
        Opcode::lex_from_str("teq acc 5", &l),
        Ok(("", Opcode::Teq(RegImm::Reg(Register::Acc), RegImm::Imm(5))))
    );
    assert_eq!(
        Opcode::lex_from_str("tgt 1 2", &l),
        Ok(("", Opcode::Tgt(RegImm::Imm(1), RegImm::Imm(2))))
    );
    assert_eq!(
        Opcode::lex_from_str("tlt dat 2", &l),
        Ok(("", Opcode::Tlt(RegImm::Reg(Register::Dat), RegImm::Imm(2))))
    );
    assert_eq!(
        Opcode::lex_from_str("tcp x0 x1 tail", &l),
        Ok((
            " tail",
            Opcode::Tcp(RegImm::Reg(Register::Pin(Pin::X0)), RegImm::Reg(Register::Pin(Pin::X1)))
        ))
    );
}

#[test]
fn an_operation_needs_all_its_operands() {
    let l = no_labels();
    assert_eq!(Opcode::lex_from_str("mov 5", &l), Err(LexError));
    assert_eq!(Opcode::lex_from_str("mov 5 7", &l), Err(LexError));
    assert_eq!(Opcode::lex_from_str("mov  5 acc", &l), Err(LexError));
    assert_eq!(Opcode::lex_from_str("add", &l), Err(LexError));
    assert_eq!(Opcode::lex_from_str("teq 1", &l), Err(LexError));
    assert_eq!(Opcode::lex_from_str("xyz", &l), Err(LexError));
    assert_eq!(Opcode::lex_from_str("", &l), Err(LexError));
}

#[test]
fn a_jump_is_read_as_the_address_of_its_label() {
    let labels = vec![
        Some(Label(String::from("top"))),
        None,
        Some(Label(String::from("end"))),
        Some(Label(String::from("top"))),
    ];
    assert_eq!(resolve(&labels, "top"), Some(0));
    assert_eq!(resolve(&labels, "end"), Some(2));
    assert_eq!(resolve(&labels, "nowhere"), None);
    assert_eq!(Opcode::lex_from_str("jmp end", &labels), Ok(("", Opcode::Jmp(2))));
    assert_eq!(Opcode::lex_from_str("jmp top;", &labels), Ok((";", Opcode::Jmp(0))));
    assert_eq!(Opcode::lex_from_str("jmp nowhere", &labels), Err(LexError));
    assert_eq!(Opcode::lex_from_str("jmp ", &labels), Err(LexError));
    assert_eq!(Opcode::lex_from_str("jmp :", &labels), Err(LexError));
}

#[test]
fn a_label_beyond_the_first_256_lines_has_no_address() {
    let mut labels: Vec<Option<Label>> = Vec::new();
    for _ in 0..256 {
        labels.push(None);
    }
    labels.push(Some(Label(String::from("far"))));
    assert_eq!(resolve(&labels, "far"), None);
    labels[255] = Some(Label(String::from("near")));
    assert_eq!(resolve(&labels, "near"), Some(255));
}

#[test]
fn a_line_has_a_label_a_guard_and_an_operation() {
    let labels = vec![Some(Label(String::from("start")))];
    let (rest, loc) = LOC::lex_from_str("start: + mov 1 acc", &labels);
    assert_eq!(rest, "");
    assert_eq!(
        loc,
        LOC {
            lab: Some(Label(String::from("start"))),
            cond: Some(Condition(true)),
            op: Some(Opcode::MovReg(RegImm::Imm(1), Register::Acc)),
        }
    );
}

#[test]
fn every_part_of_a_line_may_be_missing() {
    let l = no_labels();
    assert_eq!(
        LOC::lex_from_str("nop", &l),
        ("", LOC { lab: None, cond: None, op: Some(Opcode::Nop) })
    );
    assert_eq!(
        LOC::lex_from_str("- add 1", &l),
        ("", LOC { lab: None, cond: Some(Condition(false)), op: Some(Opcode::Add(RegImm::Imm(1))) })
    );
    assert_eq!(
        LOC::lex_from_str("here: ", &l),
        ("", LOC { lab: Some(Label(String::from("here"))), cond: None, op: None })
    );
    assert_eq!(LOC::lex_from_str("", &l), ("", LOC { lab: None, cond: None, op: None }));
}

#[test]
fn what_is_no_part_of_a_line_is_left_over() {
    let l = no_labels();
    assert_eq!(
        LOC::lex_from_str("garbage", &l),
        ("garbage", LOC { lab: None, cond: None, op: None })
    );
    // A label counts only with the space behind it, a guard likewise.
    assert_eq!(LOC::lex_from_str("foo:", &l), ("foo:", LOC { lab: None, cond: None, op: None }));
    assert_eq!(LOC::lex_from_str("+nop", &l), ("+nop", LOC { lab: None, cond: None, op: None }));
    assert_eq!(
        LOC::lex_from_str("nop # idle", &l),
        (" # idle", LOC { lab: None, cond: None, op: Some(Opcode::Nop) })
    );
}

#[test]
fn from_str_reads_every_text() {
    let l = no_labels();
    assert_eq!(
        LOC::from_str("tcp acc 0", &l),
        Ok(LOC {
            lab: None,
            cond: None,
            op: Some(Opcode::Tcp(RegImm::Reg(Register::Acc), RegImm::Imm(0)))
        })
    );
    assert_eq!(LOC::from_str("???", &l), Ok(LOC { lab: None, cond: None, op: None }));
}

#[test]
fn a_program_is_read_with_its_jumps_resolved() {
    let lines: Vec<String> = ["top: mov 1 acc", "jmp end", "+ nop", "end: jmp top"]
        .iter()
        .map(|s| s.to_string())
        .collect();
    assert_eq!(
        labels_of(&lines),
        vec![Some(Label(String::from("top"))), None, None, Some(Label(String::from("end")))]
    );
    let program = assemble(&lines);
    assert_eq!(program.len(), 4);
    assert_eq!(program[0].op, Some(Opcode::MovReg(RegImm::Imm(1), Register::Acc)));
    assert_eq!(program[0].lab, Some(Label(String::from("top"))));
    assert_eq!(program[1].op, Some(Opcode::Jmp(3)));
    assert_eq!(program[2], LOC { lab: None, cond: Some(Condition(true)), op: Some(Opcode::Nop) });
    assert_eq!(program[3].op, Some(Opcode::Jmp(0)));
}

#[test]
fn a_program_is_padded_to_its_slots() {
    let blank = LOC { lab: None, cond: None, op: None };
    let nop = LOC { lab: None, cond: None, op: Some(Opcode::Nop) };
    assert_eq!(
        mcsim::lex::pad(vec![nop.clone()], 3),
        Some(vec![nop.clone(), blank.clone(), blank.clone()])
    );
    assert_eq!(mcsim::lex::pad(vec![nop.clone(), nop.clone()], 2), Some(vec![nop.clone(), nop.clone()]));
    assert_eq!(mcsim::lex::pad(vec![nop.clone(), nop.clone()], 1), None);
    assert_eq!(mcsim::lex::pad(Vec::new(), 0), Some(Vec::new()));
}

#[test]
fn a_program_fills_the_slots_of_its_controller() {
    let lines: Vec<String> =
        ["mov 1 acc", "loop: add acc", "jmp loop"].iter().map(|s| s.to_string()).collect();
    let code = mcsim::lex::program::<9>(&lines).unwrap();
    assert_eq!(code[0].op, Some(Opcode::MovReg(RegImm::Imm(1), Register::Acc)));
    assert_eq!(code[1].op, Some(Opcode::Add(RegImm::Reg(Register::Acc))));
    assert_eq!(code[1].lab, Some(Label(String::from("loop"))));
    assert_eq!(code[2].op, Some(Opcode::Jmp(1)));
    for slot in 3..9 {
        assert_eq!(code[slot], LOC { lab: None, cond: None, op: None });
    }
    assert!(mcsim::lex::program::<3>(&lines).is_some());
    assert!(mcsim::lex::program::<2>(&lines).is_none());
}

#[test]
fn a_read_program_runs() {
    let lines: Vec<String> = ["mov 1 acc", "loop: add acc", "tgt acc 100", "- jmp loop", "+ slp 1"]
        .iter()
        .map(|s| s.to_string())
        .collect();
    let mut board = mcsim::board::Board::new(10).unwrap();
    board.add_device(mcsim::board::Controller::Basic(mcsim::devices::mc::MC4000::new(
        mcsim::lex::program::<9>(&lines).unwrap(),
    )));
    let mut passed = 0;
    loop {
        assert_eq!(board.advance(), Ok(()));
        passed += 1;
        if let mcsim::device::DeviceState::Sleep(_) =
            mcsim::device::Device::get_state(board.device(0).unwrap())
        {
            break;
        }
        assert!(passed < 100);
    }
    // 1, 2, 4, ..., 128: the first line, then seven doublings of three
    // lines each, the last of which ends with the sleep in place of the
    // jump.
    assert_eq!(mcsim::device::Device::get_acc(board.device(0).unwrap()), Some(128));
    assert_eq!(passed, 1 + 7 * 3);
}

#[test]
fn text_beyond_ascii_is_split_between_characters() {
    // A digit of another script ends a number; a letter with an accent ends
    // a name.
    assert_eq!(RegImm::lex_from_str("12\u{0663}"), Ok(("\u{0663}", RegImm::Imm(12))));
    assert_eq!(RegImm::lex_from_str("\u{0663}"), Err(LexError));
    let labels = vec![Some(Label(String::from("caf")))];
    assert_eq!(Opcode::lex_from_str("jmp caf\u{e9}", &labels), Ok(("\u{e9}", Opcode::Jmp(0))));
    assert_eq!(Opcode::lex_from_str("jmp \u{e9}", &labels), Err(LexError));
    assert_eq!(
        Label::lex_from_str("\u{e9}t\u{e9}: nop"),
        Ok((" nop", Label(String::from("\u{e9}t\u{e9}"))))
    );
    assert_eq!(Pin::lex_from_str("p0\u{e9}"), Ok(("\u{e9}", Pin::P0)));
    assert_eq!(Pin::lex_from_str("\u{e9}p0"), Err(LexError));
}
