use asmcore::number::{format_i32, parse_i32};
use asmcore::text::{str_eq, to_chars, to_string};
use asmcore::{BinaryOp, Command, FaultKind, Program, UnaryOp};

#[test]
fn integers_are_read_in_decimal() {
    assert_eq!(parse_i32("0"), Some(0));
    assert_eq!(parse_i32("7"), Some(7));
    assert_eq!(parse_i32("+7"), Some(7));
    assert_eq!(parse_i32("-7"), Some(-7));
    assert_eq!(parse_i32("-0"), Some(0));
    assert_eq!(parse_i32("000123"), Some(123));
    assert_eq!(parse_i32("1234567890"), Some(1234567890));
    assert_eq!(parse_i32("2147483647"), Some(i32::MAX));
    assert_eq!(parse_i32("-2147483648"), Some(i32::MIN));
    assert_eq!(parse_i32("0000000000000000000002147483647"), Some(i32::MAX));
}

#[test]
fn what_is_no_integer_or_does_not_fit_is_not_read() {
    for bad in [
        "", "-", "+", "--1", "+-1", "1-", "12a", "a12", " 1", "1 ", "1_000", "0x10", "1.5",
        "2147483648", "-2147483649", "99999999999999999999999999", "-99999999999999999999",
    ] {
        assert_eq!(parse_i32(bad), None, "{:?}", bad);
    }
}

#[test]
fn reading_agrees_with_the_standard_library() {
    for text in ["5", "-5", "+5", "", "-", "x", "2147483647", "2147483648", "-2147483648", "\u{663}"] {
        assert_eq!(parse_i32(text), text.parse::<i32>().ok(), "{:?}", text);
    }
}

#[test]
fn integers_are_written_in_decimal() {
    assert_eq!(format_i32(0), "0");
    assert_eq!(format_i32(9), "9");
    assert_eq!(format_i32(10), "10");
    assert_eq!(format_i32(-1), "-1");
    assert_eq!(format_i32(1234567890), "1234567890");
    assert_eq!(format_i32(-1000), "-1000");
    assert_eq!(format_i32(i32::MAX), "2147483647");
    assert_eq!(format_i32(i32::MIN), "-2147483648");
}

#[test]
fn reading_what_was_written_gives_the_number_back() {
    for v in [0, 1, -1, 9, 10, 11, 99, 100, -100, 65535, i32::MAX, i32::MIN, i32::MIN + 1] {
        assert_eq!(parse_i32(&format_i32(v)), Some(v));
        assert_eq!(format_i32(v), v.to_string());
    }
}

#[test]
fn characters_of_a_string_and_back() {
    let chars = to_chars("a\u{e9}\u{4e2d}z");
    assert_eq!(chars, vec!['a', '\u{e9}', '\u{4e2d}', 'z']);
    assert_eq!(to_string(&chars, 0, 4), "a\u{e9}\u{4e2d}z");
    assert_eq!(to_string(&chars, 1, 3), "\u{e9}\u{4e2d}");
    assert_eq!(to_string(&chars, 2, 2), "");
    assert_eq!(to_chars(""), Vec::<char>::new());
}

#[test]
fn strings_are_equal_when_their_characters_are() {
    assert!(str_eq("", ""));
    assert!(str_eq("abc", "abc"));
    assert!(str_eq("\u{e9}", "\u{e9}"));
    assert!(!str_eq("abc", "abd"));
    assert!(!str_eq("abc", "ab"));
    assert!(!str_eq("", "a"));
    assert!(!str_eq("e", "\u{e9}"));
}

#[test]
fn operations_compute_or_fault() {
    assert_eq!(BinaryOp::Mov.apply(1, 2), Ok(2));
    assert_eq!(BinaryOp::Add.apply(1, 2), Ok(3));
    assert_eq!(BinaryOp::Sub.apply(1, 2), Ok(-1));
    assert_eq!(BinaryOp::Mul.apply(-3, 2), Ok(-6));
    assert_eq!(BinaryOp::Div.apply(-7, 2), Ok(-3));
    assert_eq!(BinaryOp::Div.apply(7, 0), Err(FaultKind::DivisionByZero));
    assert_eq!(BinaryOp::Div.apply(0, 0), Err(FaultKind::DivisionByZero));
    assert_eq!(BinaryOp::Div.apply(i32::MIN, -1), Err(FaultKind::Overflow));
    assert_eq!(BinaryOp::Add.apply(i32::MAX, 1), Err(FaultKind::Overflow));
    assert_eq!(BinaryOp::Sub.apply(i32::MIN, 1), Err(FaultKind::Overflow));
    assert_eq!(BinaryOp::Mul.apply(65536, 32768), Err(FaultKind::Overflow));
    assert_eq!(BinaryOp::Mul.apply(65536, -32768), Ok(i32::MIN));
    assert_eq!(UnaryOp::Inc.apply(-1), Ok(0));
    assert_eq!(UnaryOp::Dec.apply(0), Ok(-1));
    assert_eq!(UnaryOp::Inc.apply(i32::MAX), Err(FaultKind::Overflow));
    assert_eq!(UnaryOp::Dec.apply(i32::MIN), Err(FaultKind::Overflow));
    assert!(!BinaryOp::Mov.updates_flags());
    assert!(BinaryOp::Add.updates_flags());
    assert!(BinaryOp::Div.updates_flags());
}

#[test]
fn stack_words_stand_for_addresses() {
    assert_eq!(asmcore::machine::address_of(0), 0);
    assert_eq!(asmcore::machine::address_of(17), 17);
    assert_eq!(asmcore::machine::address_of(i32::MAX), 2147483647);
    assert_eq!(asmcore::machine::address_of(-1), usize::MAX);
    assert_eq!(asmcore::machine::address_of(i32::MIN), usize::MAX - 2147483647);
    for word in [0, 1, -1, -2, i32::MIN, i32::MAX] {
        assert_eq!(asmcore::machine::address_of(word), word as usize);
    }
}

#[test]
fn register_table_hands_out_dense_indices() {
    let mut program = Program::default();
    assert_eq!(program.get_reg_count(), 0);
    assert_eq!(program.get_or_create_reg("a"), 0);
    assert_eq!(program.get_or_create_reg("b"), 1);
    assert_eq!(program.get_or_create_reg("a"), 0);
    assert_eq!(program.get_or_create_reg("A"), 2);
    assert_eq!(program.get_or_create_reg(""), 3);
    assert_eq!(program.get_or_create_reg("b"), 1);
    assert_eq!(program.get_reg_count(), 4);
}

#[test]
fn commands_are_kept_in_the_order_they_were_appended() {
    let mut program = Program::default();
    program.get_or_create_reg("a");
    program.append_command(Command::Inc(0));
    program.append_command(Command::Jmp(String::from("x")));
    program.append_command(Command::Ret);
    assert_eq!(program.get_command_count(), 3);
    assert_eq!(program.get_command(0), Some(&Command::Inc(0)));
    assert_eq!(program.get_command(1), Some(&Command::Jmp(String::from("x"))));
    assert_eq!(program.get_command(2), Some(&Command::Ret));
    assert_eq!(program.get_command(3), None);
    assert_eq!(program.get_command(usize::MAX), None);
}

#[test]
fn label_table_keeps_the_last_binding() {
    let mut program = Program::default();
    assert_eq!(program.get_label_ip("a"), None);
    program.set_label(String::from("a"), 1);
    program.set_label(String::from("b"), 2);
    program.set_label(String::from("a"), 3);
    assert_eq!(program.get_label_ip("a"), Some(3));
    assert_eq!(program.get_label_ip("b"), Some(2));
    assert_eq!(program.get_label_ip("c"), None);
}

#[test]
fn set_labels_replaces_the_table() {
    let mut program = Program::default();
    program.set_label(String::from("old"), 9);
    program.set_labels(vec![
        (String::from("x"), 1),
        (String::from("y"), 2),
        (String::from("x"), 5),
    ]);
    assert_eq!(program.get_label_ip("old"), None);
    assert_eq!(program.get_label_ip("x"), Some(5));
    assert_eq!(program.get_label_ip("y"), Some(2));
    program.set_labels(vec![]);
    assert_eq!(program.get_label_ip("x"), None);
}

#[test]
fn command_knows_the_registers_it_names() {
    assert!(Command::MovRegReg(0, 1).registers_below(2));
    assert!(!Command::MovRegReg(0, 2).registers_below(2));
    assert!(!Command::MovRegReg(2, 0).registers_below(2));
    assert!(Command::CmpRegNum(1, 99).registers_below(2));
    assert!(!Command::Loop(3, String::from("l")).registers_below(3));
    assert!(Command::Loop(2, String::from("l")).registers_below(3));
    assert!(Command::PushNum(7).registers_below(0));
    assert!(Command::PrintStr(String::from("t")).registers_below(0));
    assert!(Command::Jmp(String::from("l")).registers_below(0));
    assert!(Command::Ret.registers_below(0));
    assert!(!Command::PrintReg(0).registers_below(0));
}
