use asmcore::lexer::{lex_line, next_token, scan, Class};
use asmcore::syntax::{check_operands, classify, parse_line, verb_of};
use asmcore::{
    AssemblerParser, Command, Program, Rule, Statement, SyntaxError, SyntaxErrorKind, Token,
};

fn commands(program: &Program) -> Vec<Command> {
    let mut all = Vec::new();
    let mut ip = 0;
    while let Some(command) = program.get_command(ip) {
        all.push(command.clone());
        ip += 1;
    }
    all
}

fn parse(source: &str) -> Program {
    AssemblerParser::parse_program(source).expect("the source is well formed")
}

fn chars(text: &str) -> Vec<char> {
    text.chars().collect()
}

#[test]
fn empty_source_is_the_empty_program() {
    let program = parse("");
    assert_eq!(program.get_command_count(), 0);
    assert_eq!(program.get_reg_count(), 0);
    assert!(program.get_command(0).is_none());
}

#[test]
fn each_command_line_becomes_one_instruction_in_source_order() {
    let program = parse("mov a, 5\nadd a, b\ninc b\nret\n");
    assert_eq!(
        commands(&program),
        vec![
            Command::MovRegNum(0, 5),
            Command::AddRegReg(0, 1),
            Command::Inc(1),
            Command::Ret,
        ]
    );
    assert_eq!(program.get_reg_count(), 2);
}

#[test]
fn registers_are_numbered_in_order_of_first_mention() {
    let program = parse("mov x, y\nmov z, x\npush y\npop w\n");
    assert_eq!(
        commands(&program),
        vec![
            Command::MovRegReg(0, 1),
            Command::MovRegReg(2, 0),
            Command::PushReg(1),
            Command::PopReg(3),
        ]
    );
    assert_eq!(program.get_reg_count(), 4);
}

#[test]
fn every_verb_maps_to_its_instruction() {
    let source = "mov a, b\nmov a, 1\nadd a, b\nadd a, 2\nsub a, b\nsub a, 3\nmul a, b\nmul a, 4\n\
                  div a, b\ndiv a, 5\ninc a\ndec a\nprint a\nprint \"hi\"\nprintln a\nprintln \"ho\"\n\
                  read a\npush a\npush 6\npop a\ncmp a, b\ncmp a, 7\njmp l\nje l\njne l\njg l\njge l\n\
                  jl l\njle l\nloop a, l\ncall l\nret\n";
    let l = || String::from("l");
    assert_eq!(
        commands(&parse(source)),
        vec![
            Command::MovRegReg(0, 1),
            Command::MovRegNum(0, 1),
            Command::AddRegReg(0, 1),
            Command::AddRegNum(0, 2),
            Command::SubRegReg(0, 1),
            Command::SubRegNum(0, 3),
            Command::MulRegReg(0, 1),
            Command::MulRegNum(0, 4),
            Command::DivRegReg(0, 1),
            Command::DivRegNum(0, 5),
            Command::Inc(0),
            Command::Dec(0),
            Command::PrintReg(0),
            Command::PrintStr(String::from("hi")),
            Command::PrintlnReg(0),
            Command::PrintlnStr(String::from("ho")),
            Command::ReadReg(0),
            Command::PushReg(0),
            Command::PushNum(6),
            Command::PopReg(0),
            Command::CmpRegReg(0, 1),
            Command::CmpRegNum(0, 7),
            Command::Jmp(l()),
            Command::Je(l()),
            Command::Jne(l()),
            Command::Jg(l()),
            Command::Jge(l()),
            Command::Jl(l()),
            Command::Jle(l()),
            Command::Loop(0, l()),
            Command::Call(l()),
            Command::Ret,
        ]
    );
}

#[test]
fn label_is_bound_to_the_number_of_instructions_before_it() {
    let program = parse("start:\nmov a, 1\nmiddle:\ninc a\ninc a\nend:\n");
    assert_eq!(program.get_label_ip("start"), Some(0));
    assert_eq!(program.get_label_ip("middle"), Some(1));
    assert_eq!(program.get_label_ip("end"), Some(3));
    assert_eq!(program.get_label_ip("nowhere"), None);
    assert_eq!(program.get_command_count(), 3);
}

#[test]
fn label_may_be_used_before_it_is_declared() {
    let program = parse("jmp later\ninc a\nlater:\ndec a\n");
    assert_eq!(commands(&program)[0], Command::Jmp(String::from("later")));
    assert_eq!(program.get_label_ip("later"), Some(2));
}

#[test]
fn last_declaration_of_a_label_wins() {
    let program = parse("spot:\ninc a\nspot:\ninc a\ninc a\nspot:\n");
    assert_eq!(program.get_label_ip("spot"), Some(3));
}

#[test]
fn label_declarations_create_no_register() {
    let program = parse("a:\nb:\nmov c, 1\n");
    assert_eq!(program.get_reg_count(), 1);
    assert_eq!(commands(&program), vec![Command::MovRegNum(0, 1)]);
}

#[test]
fn operand_that_reads_as_an_integer_is_a_literal() {
    let program = parse("mov a, 7\nmov a, -7\nmov a, +7\nmov a, 007\npush -2147483648\n");
    assert_eq!(
        commands(&program),
        vec![
            Command::MovRegNum(0, 7),
            Command::MovRegNum(0, -7),
            Command::MovRegNum(0, 7),
            Command::MovRegNum(0, 7),
            Command::PushNum(i32::MIN),
        ]
    );
    assert_eq!(program.get_reg_count(), 1);
}

#[test]
fn number_that_does_not_fit_names_a_register() {
    let program = parse("mov a, 2147483648\npush 99999999999\nadd a, 2147483647\n");
    assert_eq!(
        commands(&program),
        vec![
            Command::MovRegReg(0, 1),
            Command::PushReg(2),
            Command::AddRegNum(0, 2147483647),
        ]
    );
    assert_eq!(program.get_reg_count(), 3);
}

#[test]
fn blank_lines_and_carriage_returns_are_skipped() {
    let program = parse("\r\n  \t\r\nmov a, 1\r\n\r\n\tinc   a  \r\n");
    assert_eq!(commands(&program), vec![Command::MovRegNum(0, 1), Command::Inc(0)]);
}

#[test]
fn last_line_needs_no_line_feed() {
    let program = parse("inc a\ndec a");
    assert_eq!(commands(&program), vec![Command::Inc(0), Command::Dec(0)]);
}

#[test]
fn spaces_around_the_comma_are_optional() {
    let program = parse("mov a,3\nmov b , 4\nloop a,top\ntop :\n");
    assert_eq!(
        commands(&program),
        vec![
            Command::MovRegNum(0, 3),
            Command::MovRegNum(1, 4),
            Command::Loop(0, String::from("top")),
        ]
    );
    assert_eq!(program.get_label_ip("top"), Some(3));
}

#[test]
fn string_literal_keeps_its_content_as_written() {
    let program = parse("print \"a, b: c  \"\nprintln \"\"\nprint \"na\u{ef}ve \u{2713}\"\n");
    assert_eq!(
        commands(&program),
        vec![
            Command::PrintStr(String::from("a, b: c  ")),
            Command::PrintlnStr(String::new()),
            Command::PrintStr(String::from("na\u{ef}ve \u{2713}")),
        ]
    );
}

#[test]
fn verbs_are_case_sensitive() {
    assert_eq!(
        AssemblerParser::parse_program("MOV a, 1").err(),
        Some(SyntaxError { line: 0, kind: SyntaxErrorKind::Statement })
    );
    assert_eq!(verb_of("Mov"), None);
    assert_eq!(verb_of("mov"), Some(Rule::mov_verb));
}

#[test]
fn a_verb_may_serve_as_a_label() {
    let program = parse("loop:\ndec a\njmp loop\n");
    assert_eq!(program.get_label_ip("loop"), Some(0));
    assert_eq!(commands(&program)[1], Command::Jmp(String::from("loop")));
}

#[test]
fn syntax_error_names_the_first_bad_line() {
    let result = AssemblerParser::parse_program("mov a, 1\n\nfrobnicate a\nalso bad\n");
    assert_eq!(result.err(), Some(SyntaxError { line: 2, kind: SyntaxErrorKind::Statement }));
}

#[test]
fn character_that_starts_no_token_is_a_token_error() {
    assert_eq!(
        AssemblerParser::parse_program("inc a\ninc a\nmov a, #1").err(),
        Some(SyntaxError { line: 2, kind: SyntaxErrorKind::Token })
    );
    assert_eq!(
        AssemblerParser::parse_program("print \"open").err(),
        Some(SyntaxError { line: 0, kind: SyntaxErrorKind::Token })
    );
    assert_eq!(
        AssemblerParser::parse_program("mov a, -").err(),
        Some(SyntaxError { line: 0, kind: SyntaxErrorKind::Token })
    );
}

#[test]
fn operands_must_fit_the_shape_of_the_verb() {
    for bad in [
        "ret a",
        "inc",
        "inc 5",
        "inc a, b",
        "pop \"x\"",
        "push \"x\"",
        "print 5",
        "jmp 5",
        "jmp",
        "mov a",
        "mov 5, a",
        "mov a b",
        "mov a, b, c",
        "mov a, \"x\"",
        "loop a, 5",
        "loop a",
        "a",
        "5",
        ":",
        "a: inc b",
        "5:",
        ", a",
    ] {
        assert_eq!(
            AssemblerParser::parse_program(bad).err(),
            Some(SyntaxError { line: 0, kind: SyntaxErrorKind::Statement }),
            "{}",
            bad
        );
    }
}

#[test]
fn parsing_twice_gives_the_same_program() {
    let source = "mov a, 3\ntop:\nadd b, 1\ncall sub\nloop a, top\nprintln b\njmp end\nsub:\nret\nend:\n";
    let first = parse(source);
    let second = parse(source);
    assert_eq!(commands(&first), commands(&second));
    assert_eq!(first.get_reg_count(), second.get_reg_count());
    for label in ["top", "sub", "end", "missing"] {
        assert_eq!(first.get_label_ip(label), second.get_label_ip(label));
    }
    assert_eq!(first.get_label_ip("top"), Some(1));
    assert_eq!(first.get_label_ip("sub"), Some(6));
    assert_eq!(first.get_label_ip("end"), Some(7));
}

#[test]
fn line_falls_into_tokens() {
    let tokens = lex_line(&chars("  mov\tabc_1 ,-42 \"x y\":")).expect("tokens");
    assert_eq!(
        tokens,
        vec![
            Token::Ident(String::from("mov")),
            Token::Ident(String::from("abc_1")),
            Token::Comma,
            Token::Number(String::from("-42")),
            Token::Text(String::from("x y")),
            Token::Colon,
        ]
    );
    assert_eq!(lex_line(&chars("")), Some(vec![]));
    assert_eq!(lex_line(&chars("a ; comment")), None);
    assert_eq!(lex_line(&chars("a - b")), None);
}

#[test]
fn adjacent_tokens_need_no_blank_between_them() {
    assert_eq!(
        lex_line(&chars("12ab+3_x")),
        Some(vec![
            Token::Number(String::from("12")),
            Token::Ident(String::from("ab")),
            Token::Number(String::from("+3")),
            Token::Ident(String::from("_x")),
        ])
    );
}

#[test]
fn token_text_is_what_the_token_carries() {
    assert_eq!(Token::Ident(String::from("reg")).text(), "reg");
    assert_eq!(Token::Number(String::from("-1")).text(), "-1");
    assert_eq!(Token::Text(String::from("a b")).text(), "a b");
    assert_eq!(Token::Comma.text(), "");
    assert_eq!(Token::Colon.text(), "");
}

#[test]
fn tokens_form_a_statement() {
    let ident = |s: &str| Token::Ident(String::from(s));
    assert_eq!(classify(vec![]), Some(None));
    assert_eq!(
        classify(vec![ident("here"), Token::Colon]),
        Some(Some(Statement::Label(String::from("here"))))
    );
    assert_eq!(
        classify(vec![ident("ret")]),
        Some(Some(Statement::Command(Rule::ret_verb, vec![])))
    );
    assert_eq!(
        classify(vec![ident("cmp"), ident("a"), Token::Comma, Token::Number(String::from("1"))]),
        Some(Some(Statement::Command(
            Rule::cmp_verb,
            vec![ident("a"), Token::Number(String::from("1"))]
        )))
    );
    assert_eq!(classify(vec![ident("cmp"), ident("a"), Token::Colon, ident("b")]), None);
    assert_eq!(classify(vec![ident("cmp"), ident("a"), Token::Comma]), None);
    assert_eq!(classify(vec![Token::Comma]), None);
}

#[test]
fn line_holds_a_statement_or_nothing() {
    assert_eq!(parse_line(&chars("   ")), Ok(None));
    assert_eq!(
        parse_line(&chars("push 5")),
        Ok(Some(Statement::Command(Rule::push_verb, vec![Token::Number(String::from("5"))])))
    );
    assert_eq!(parse_line(&chars("push 5 5")), Err(SyntaxErrorKind::Statement));
    assert_eq!(parse_line(&chars("push ?")), Err(SyntaxErrorKind::Token));
}

#[test]
fn verb_has_one_shape() {
    assert_eq!(Rule::ret_verb.command_shape(), Some(Rule::unit_command));
    assert_eq!(Rule::read_verb.command_shape(), Some(Rule::unary_reg_command));
    assert_eq!(Rule::push_verb.command_shape(), Some(Rule::unary_regnum_command));
    assert_eq!(Rule::println_verb.command_shape(), Some(Rule::unary_regstr_command));
    assert_eq!(Rule::call_verb.command_shape(), Some(Rule::unary_ip_command));
    assert_eq!(Rule::cmp_verb.command_shape(), Some(Rule::binary_reg_regnum_command));
    assert_eq!(Rule::loop_verb.command_shape(), Some(Rule::binary_reg_ip_command));
    assert_eq!(Rule::unit_command.command_shape(), None);
}

#[test]
fn constructors_pick_the_variant_of_the_verb() {
    assert_eq!(Command::new_reg(Rule::inc_verb, 3), Command::Inc(3));
    assert_eq!(Command::new_reg(Rule::dec_verb, 3), Command::Dec(3));
    assert_eq!(Command::new_reg(Rule::push_verb, 3), Command::PushReg(3));
    assert_eq!(Command::new_reg(Rule::pop_verb, 3), Command::PopReg(3));
    assert_eq!(Command::new_reg(Rule::print_verb, 3), Command::PrintReg(3));
    assert_eq!(Command::new_reg(Rule::println_verb, 3), Command::PrintlnReg(3));
    assert_eq!(Command::new_reg(Rule::read_verb, 3), Command::ReadReg(3));
    assert_eq!(Command::new_num(Rule::push_verb, -9), Command::PushNum(-9));
    assert_eq!(Command::new_str(Rule::print_verb, "t"), Command::PrintStr(String::from("t")));
    assert_eq!(Command::new_str(Rule::println_verb, "t"), Command::PrintlnStr(String::from("t")));
    let l = || String::from("l");
    assert_eq!(Command::new_ip(Rule::jmp_verb, l()), Command::Jmp(l()));
    assert_eq!(Command::new_ip(Rule::je_verb, l()), Command::Je(l()));
    assert_eq!(Command::new_ip(Rule::jne_verb, l()), Command::Jne(l()));
    assert_eq!(Command::new_ip(Rule::jl_verb, l()), Command::Jl(l()));
    assert_eq!(Command::new_ip(Rule::jle_verb, l()), Command::Jle(l()));
    assert_eq!(Command::new_ip(Rule::jg_verb, l()), Command::Jg(l()));
    assert_eq!(Command::new_ip(Rule::jge_verb, l()), Command::Jge(l()));
    assert_eq!(Command::new_ip(Rule::call_verb, l()), Command::Call(l()));
    assert_eq!(Command::new_regnum(Rule::mov_verb, 1, 2), Command::MovRegNum(1, 2));
    assert_eq!(Command::new_regnum(Rule::add_verb, 1, 2), Command::AddRegNum(1, 2));
    assert_eq!(Command::new_regnum(Rule::sub_verb, 1, 2), Command::SubRegNum(1, 2));
    assert_eq!(Command::new_regnum(Rule::mul_verb, 1, 2), Command::MulRegNum(1, 2));
    assert_eq!(Command::new_regnum(Rule::div_verb, 1, 2), Command::DivRegNum(1, 2));
    assert_eq!(Command::new_regnum(Rule::cmp_verb, 1, 2), Command::CmpRegNum(1, 2));
    assert_eq!(Command::new_regreg(Rule::mov_verb, 1, 2), Command::MovRegReg(1, 2));
    assert_eq!(Command::new_regreg(Rule::add_verb, 1, 2), Command::AddRegReg(1, 2));
    assert_eq!(Command::new_regreg(Rule::sub_verb, 1, 2), Command::SubRegReg(1, 2));
    assert_eq!(Command::new_regreg(Rule::mul_verb, 1, 2), Command::MulRegReg(1, 2));
    assert_eq!(Command::new_regreg(Rule::div_verb, 1, 2), Command::DivRegReg(1, 2));
    assert_eq!(Command::new_regreg(Rule::cmp_verb, 1, 2), Command::CmpRegReg(1, 2));
    assert_eq!(Command::new_regip(Rule::loop_verb, 4, l()), Command::Loop(4, l()));
}

#[test]
fn parse_command_appends_and_interns() {
    let mut program = Program::default();
    let ident = |s: &str| Token::Ident(String::from(s));
    AssemblerParser::parse_command(&mut program, Rule::mov_verb, &vec![ident("a"), ident("b")]);
    AssemblerParser::parse_command(
        &mut program,
        Rule::push_verb,
        &vec![Token::Number(String::from("12"))],
    );
    AssemblerParser::parse_command(
        &mut program,
        Rule::print_verb,
        &vec![Token::Text(String::from("12"))],
    );
    AssemblerParser::parse_command(&mut program, Rule::loop_verb, &vec![ident("c"), ident("a")]);
    AssemblerParser::parse_command(&mut program, Rule::ret_verb, &vec![]);
    assert_eq!(
        commands(&program),
        vec![
            Command::MovRegReg(0, 1),
            Command::PushNum(12),
            Command::PrintStr(String::from("12")),
            Command::Loop(2, String::from("a")),
            Command::Ret,
        ]
    );
    assert_eq!(program.get_reg_count(), 3);
}

#[test]
fn parse_statement_reports_the_line_it_was_given() {
    let mut program = Program::default();
    assert_eq!(AssemblerParser::parse_statement(&mut program, &chars("inc a"), 7), None);
    assert_eq!(AssemblerParser::parse_statement(&mut program, &chars("here:"), 8), None);
    assert_eq!(AssemblerParser::parse_statement(&mut program, &chars(""), 9), None);
    assert_eq!(
        AssemblerParser::parse_statement(&mut program, &chars("inc"), 10),
        Some(SyntaxError { line: 10, kind: SyntaxErrorKind::Statement })
    );
    assert_eq!(program.get_command_count(), 1);
    assert_eq!(program.get_label_ip("here"), Some(1));
}

#[test]
fn command_parts_are_the_operand_texts() {
    let one = vec![Token::Ident(String::from("a"))];
    assert_eq!(
        AssemblerParser::read_command_parts(Rule::inc_verb, &one),
        (Rule::inc_verb, "a", None)
    );
    let two = vec![Token::Ident(String::from("a")), Token::Number(String::from("5"))];
    assert_eq!(
        AssemblerParser::read_command_parts(Rule::mov_verb, &two),
        (Rule::mov_verb, "a", Some("5"))
    );
}

#[test]
fn run_of_a_class_ends_at_the_first_character_outside_it() {
    let line = chars("ab_1 23\"x");
    assert_eq!(scan(&line, Class::Ident, 0), 4);
    assert_eq!(scan(&line, Class::Ident, 4), 4);
    assert_eq!(scan(&line, Class::Digit, 5), 7);
    assert_eq!(scan(&line, Class::Digit, 0), 0);
    assert_eq!(scan(&line, Class::Quoted, 0), 7);
    assert_eq!(scan(&line, Class::Quoted, 8), 9);
    assert_eq!(scan(&line, Class::Ident, 9), 9);
    assert!(Class::Ident.contains('_') && Class::Ident.contains('Z') && Class::Ident.contains('0'));
    assert!(!Class::Ident.contains('-') && !Class::Ident.contains('\u{e9}'));
    assert!(Class::Digit.contains('9') && !Class::Digit.contains('a'));
    assert!(Class::Quoted.contains(' ') && !Class::Quoted.contains('"'));
}

#[test]
fn next_token_reports_where_the_token_ends() {
    let line = chars("mov a,\"s t\"-12:+x");
    assert_eq!(next_token(&line, 0), Some((Token::Ident(String::from("mov")), 3)));
    assert_eq!(next_token(&line, 1), Some((Token::Ident(String::from("ov")), 3)));
    assert_eq!(next_token(&line, 3), None);
    assert_eq!(next_token(&line, 5), Some((Token::Comma, 6)));
    assert_eq!(next_token(&line, 6), Some((Token::Text(String::from("s t")), 11)));
    assert_eq!(next_token(&line, 10), None);
    assert_eq!(next_token(&line, 11), Some((Token::Number(String::from("-12")), 14)));
    assert_eq!(next_token(&line, 12), Some((Token::Number(String::from("12")), 14)));
    assert_eq!(next_token(&line, 14), Some((Token::Colon, 15)));
    assert_eq!(next_token(&line, 15), None);
}

#[test]
fn operands_are_checked_against_the_shape() {
    let ident = || Token::Ident(String::from("a"));
    let number = || Token::Number(String::from("1"));
    let text = || Token::Text(String::from("t"));
    assert!(check_operands(Rule::ret_verb, &vec![]));
    assert!(!check_operands(Rule::ret_verb, &vec![ident()]));
    assert!(check_operands(Rule::inc_verb, &vec![ident()]));
    assert!(!check_operands(Rule::inc_verb, &vec![number()]));
    assert!(check_operands(Rule::push_verb, &vec![number()]));
    assert!(check_operands(Rule::push_verb, &vec![ident()]));
    assert!(!check_operands(Rule::push_verb, &vec![text()]));
    assert!(check_operands(Rule::print_verb, &vec![text()]));
    assert!(!check_operands(Rule::print_verb, &vec![number()]));
    assert!(check_operands(Rule::call_verb, &vec![ident()]));
    assert!(!check_operands(Rule::call_verb, &vec![Token::Comma]));
    assert!(check_operands(Rule::mov_verb, &vec![ident(), number()]));
    assert!(check_operands(Rule::mov_verb, &vec![ident(), ident()]));
    assert!(!check_operands(Rule::mov_verb, &vec![number(), ident()]));
    assert!(!check_operands(Rule::mov_verb, &vec![ident()]));
    assert!(check_operands(Rule::loop_verb, &vec![ident(), ident()]));
    assert!(!check_operands(Rule::loop_verb, &vec![ident(), number()]));
    assert!(!check_operands(Rule::unit_command, &vec![]));
}

#[test]
fn shape_functions_build_the_instruction() {
    let mut program = Program::default();
    let ident = |s: &str| Token::Ident(String::from(s));
    let number = |s: &str| Token::Number(String::from(s));
    assert_eq!(AssemblerParser::parse_unit_command(Rule::ret_verb), Command::Ret);
    assert_eq!(
        AssemblerParser::parse_unary_reg_command(&mut program, Rule::pop_verb, &vec![ident("p")]),
        Command::PopReg(0)
    );
    assert_eq!(
        AssemblerParser::parse_unary_regnum_command(
            &mut program,
            Rule::push_verb,
            &vec![number("-3")]
        ),
        Command::PushNum(-3)
    );
    assert_eq!(
        AssemblerParser::parse_unary_regnum_command(
            &mut program,
            Rule::push_verb,
            &vec![number("4000000000")]
        ),
        Command::PushReg(1)
    );
    assert_eq!(
        AssemblerParser::parse_unary_regstr_command(
            &mut program,
            Rule::println_verb,
            &vec![Token::Text(String::from("p"))]
        ),
        Command::PrintlnStr(String::from("p"))
    );
    assert_eq!(
        AssemblerParser::parse_unary_regstr_command(
            &mut program,
            Rule::println_verb,
            &vec![ident("p")]
        ),
        Command::PrintlnReg(0)
    );
    assert_eq!(
        AssemblerParser::parse_unary_ip_command(&mut program, Rule::jle_verb, &vec![ident("p")]),
        Command::Jle(String::from("p"))
    );
    assert_eq!(
        AssemblerParser::parse_binary_reg_regnum_command(
            &mut program,
            Rule::sub_verb,
            &vec![ident("q"), ident("p")]
        ),
        Command::SubRegReg(2, 0)
    );
    assert_eq!(
        AssemblerParser::parse_binary_reg_regnum_command(
            &mut program,
            Rule::cmp_verb,
            &vec![ident("r"), number("+8")]
        ),
        Command::CmpRegNum(3, 8)
    );
    assert_eq!(
        AssemblerParser::parse_binary_reg_ip_command(
            &mut program,
            Rule::loop_verb,
            &vec![ident("s"), ident("q")]
        ),
        Command::Loop(4, String::from("q"))
    );
    assert_eq!(program.get_reg_count(), 5);
    assert_eq!(program.get_command_count(), 0);
}
