//! The parser: from source text to a resolved program, in one pass from
//! the first line to the last.
//!
//! Registers are numbered in the order in which the source first mentions
//! them. A label stands for the address of the instruction that follows
//! its declaration; of two declarations of one label the later counts.
//! Whether the labels that jumps name are declared is not looked at here.

use vstd::prelude::*;
use crate::command::{
    binary_form, ip_form, num_form, reg_form, regip_form, str_form, Command, Instruction, Source,
};
use crate::lexer::{lexemes, Lexeme, Token};
use crate::number::{parse_i32, spec_parse_i32};
use crate::program::{distinct, intern, lemma_intern, Program, ProgramView};
use crate::rule::Rule;
use crate::syntax::{
    lemma_lines_len, line_statement, lines, operands_fit, parse_line, statements, Statement,
    StatementView, SyntaxError,
};
use crate::text::to_chars;
use crate::types::RegIndex;

verus! {

/// The parser of the assembly language.
pub struct AssemblerParser;

/// The index of the register called `name` in the table `names`.
pub open spec fn reg_index(names: Seq<Seq<char>>, name: Seq<char>) -> RegIndex {
    names.index_of(name) as usize
}

/// The second operand that `word` stands for: a literal if `word` denotes
/// a 32-bit integer, else the register of that name, which joins the
/// table `names` if it is new.
pub open spec fn source_of(names: Seq<Seq<char>>, word: Seq<char>) -> (Seq<Seq<char>>, Source) {
    match spec_parse_i32(word) {
        Some(num) => (names, Source::Num(num)),
        None => (intern(names, word), Source::Reg(reg_index(intern(names, word), word))),
    }
}

/// The instruction that `verb` forms with `operands`, and the register
/// table after the registers that the operands name have joined `names`.
/// An operand that denotes a 32-bit integer is a literal wherever the
/// shape admits one; any other operand in such a place names a register.
pub open spec fn assemble(names: Seq<Seq<char>>, verb: Rule, operands: Seq<Lexeme>) -> (
    Seq<Seq<char>>,
    Instruction,
)
    recommends
        operands_fit(verb, operands),
{
    match verb.shape() {
        Some(Rule::unary_reg_command) => {
            let table = intern(names, operands[0].text());
            (table, reg_form(verb, reg_index(table, operands[0].text())).unwrap())
        },
        Some(Rule::unary_regnum_command) => match spec_parse_i32(operands[0].text()) {
            Some(num) => (names, num_form(verb, num).unwrap()),
            None => {
                let table = intern(names, operands[0].text());
                (table, reg_form(verb, reg_index(table, operands[0].text())).unwrap())
            },
        },
        Some(Rule::unary_regstr_command) => match operands[0] {
            Lexeme::Text(text) => (names, str_form(verb, text).unwrap()),
            _ => {
                let table = intern(names, operands[0].text());
                (table, reg_form(verb, reg_index(table, operands[0].text())).unwrap())
            },
        },
        Some(Rule::unary_ip_command) => (names, ip_form(verb, operands[0].text()).unwrap()),
        Some(Rule::binary_reg_regnum_command) => {
            let table = intern(names, operands[0].text());
            let (last, source) = source_of(table, operands[1].text());
            (last, binary_form(verb, reg_index(table, operands[0].text()), source).unwrap())
        },
        Some(Rule::binary_reg_ip_command) => {
            let table = intern(names, operands[0].text());
            (
                table,
                regip_form(
                    verb,
                    reg_index(table, operands[0].text()),
                    operands[1].text(),
                ).unwrap(),
            )
        },
        _ => (names, Instruction::Ret),
    }
}

/// The program after one more statement. A label declaration binds the
/// label to the number of instructions so far, in place of any earlier
/// binding. A command adds its instruction at the end.
pub open spec fn extend(program: ProgramView, statement: StatementView) -> ProgramView {
    match statement {
        StatementView::Label(name) => ProgramView {
            labels: program.labels.insert(name, program.commands.len() as usize),
            ..program
        },
        StatementView::Command(verb, operands) => ProgramView {
            commands: program.commands.push(assemble(program.reg_names, verb, operands).1),
            reg_names: assemble(program.reg_names, verb, operands).0,
            ..program
        },
    }
}

/// The program that `statements` make, taken in order from the empty program.
pub open spec fn build(statements: Seq<StatementView>) -> ProgramView
    decreases statements.len(),
{
    if statements.len() == 0 {
        ProgramView::empty()
    } else {
        extend(build(statements.drop_last()), statements.last())
    }
}

/// The program that the source text `text` denotes, or its first syntax error.
pub open spec fn parse(text: Seq<char>) -> Result<ProgramView, SyntaxError> {
    match statements(lines(text)) {
        Ok(all) => Ok(build(all)),
        Err(error) => Err(error),
    }
}

/// What a parse of `text` returns.
pub open spec fn parsed(text: Seq<char>, result: Result<Program, SyntaxError>) -> bool {
    match parse(text) {
        Ok(view) => result matches Ok(program) && program@ == view && program.wf(),
        Err(error) => result == Err::<Program, SyntaxError>(error),
    }
}

/// The number of commands among `statements`.
pub open spec fn command_count(statements: Seq<StatementView>) -> nat
    decreases statements.len(),
{
    if statements.len() == 0 {
        0
    } else {
        command_count(statements.drop_last()) + if statements.last() is Command {
            1nat
        } else {
            0nat
        }
    }
}

/// Every parse of one source text gives the same program: the same
/// instruction sequence, the same register table, and the same address for
/// every label.
pub proof fn lemma_parse_repeatable(
    text: Seq<char>,
    first: Result<Program, SyntaxError>,
    second: Result<Program, SyntaxError>,
)
    requires
        parsed(text, first),
        parsed(text, second),
    ensures
        first is Ok <==> second is Ok,
        first is Ok ==> first->Ok_0@ == second->Ok_0@,
        first is Err ==> first->Err_0 == second->Err_0,
{
}

/// The instruction of a valid command names registers of the table that
/// the command leaves, which is the old table with at most two names
/// more and has no name twice.
pub proof fn lemma_assemble(names: Seq<Seq<char>>, verb: Rule, operands: Seq<Lexeme>)
    requires
        distinct(names),
        names.len() + 2 <= usize::MAX,
        operands_fit(verb, operands),
    ensures
        distinct(assemble(names, verb, operands).0),
        names.len() <= assemble(names, verb, operands).0.len() <= names.len() + 2,
        assemble(names, verb, operands).1.regs_below(
            assemble(names, verb, operands).0.len() as int,
        ),
{
    if operands.len() >= 1 {
        let table = intern(names, operands[0].text());
        lemma_intern(names, operands[0].text());
        if operands.len() >= 2 {
            lemma_intern(table, operands[1].text());
        }
    }
}

/// The program of valid statements is well formed: each register index in
/// each of its instructions is below the number of its registers. It has
/// at most one instruction for each statement and two registers for each.
pub proof fn lemma_build_wf(statements: Seq<StatementView>)
    requires
        forall|i: int| 0 <= i < statements.len() ==> (#[trigger] statements[i]).wf(),
        2 * statements.len() <= usize::MAX,
    ensures
        build(statements).wf(),
        build(statements).commands.len() <= statements.len(),
        build(statements).reg_names.len() <= 2 * statements.len(),
    decreases statements.len(),
{
    if statements.len() > 0 {
        let earlier = build(statements.drop_last());
        assert forall|i: int| 0 <= i < statements.drop_last().len() implies (
        #[trigger] statements.drop_last()[i]).wf() by {
            assert(statements.drop_last()[i] == statements[i]);
        }
        lemma_build_wf(statements.drop_last());
        match statements.last() {
            StatementView::Label(_) => {},
            StatementView::Command(verb, operands) => {
                assert(statements[statements.len() - 1].wf());
                lemma_assemble(earlier.reg_names, verb, operands);
                let later = build(statements);
                assert forall|i: int| 0 <= i < later.commands.len() implies (
                #[trigger] later.commands[i]).regs_below(later.reg_names.len() as int) by {
                    if i < earlier.commands.len() {
                        assert(later.commands[i] == earlier.commands[i]);
                        assert(earlier.commands[i].regs_below(earlier.reg_names.len() as int));
                    }
                }
            },
        }
    }
}

/// A command leaves the registers that were known at their indices.
pub proof fn lemma_assemble_keeps(names: Seq<Seq<char>>, verb: Rule, operands: Seq<Lexeme>)
    ensures
        names.len() <= assemble(names, verb, operands).0.len(),
        forall|i: int|
            0 <= i < names.len() ==> assemble(names, verb, operands).0[i] == #[trigger] names[i],
{
}

/// What a program holds stays as further statements join it: each
/// instruction keeps its address and each register its index.
pub proof fn lemma_build_keeps(statements: Seq<StatementView>, k: int)
    requires
        0 <= k <= statements.len(),
    ensures
        build(statements.take(k)).commands.len() <= build(statements).commands.len(),
        forall|i: int|
            0 <= i < build(statements.take(k)).commands.len() ==> build(statements).commands[i]
                == #[trigger] build(statements.take(k)).commands[i],
        build(statements.take(k)).reg_names.len() <= build(statements).reg_names.len(),
        forall|i: int|
            0 <= i < build(statements.take(k)).reg_names.len() ==> build(statements).reg_names[i]
                == #[trigger] build(statements.take(k)).reg_names[i],
    decreases statements.len(),
{
    if k == statements.len() {
        assert(statements.take(k) =~= statements);
    } else {
        let earlier = statements.drop_last();
        assert(earlier.take(k) =~= statements.take(k));
        lemma_build_keeps(earlier, k);
        if let StatementView::Command(verb, operands) = statements.last() {
            lemma_assemble_keeps(build(earlier).reg_names, verb, operands);
        }
    }
}

/// A program has one instruction for each command, in the order of the commands.
pub proof fn lemma_build_commands(statements: Seq<StatementView>)
    ensures
        build(statements).commands.len() == command_count(statements),
    decreases statements.len(),
{
    if statements.len() > 0 {
        lemma_build_commands(statements.drop_last());
    }
}

/// A label's address is the number of commands that stand before its last
/// declaration: the index of the instruction that follows it.
pub proof fn lemma_label_address(statements: Seq<StatementView>, k: int, name: Seq<char>)
    requires
        0 <= k < statements.len(),
        statements[k] == StatementView::Label(name),
        forall|j: int| k < j < statements.len() ==> statements[j] != StatementView::Label(name),
        command_count(statements) <= usize::MAX,
    ensures
        build(statements).labels.contains_key(name),
        build(statements).labels[name] == command_count(statements.take(k)),
    decreases statements.len(),
{
    let earlier = statements.drop_last();
    if k == statements.len() - 1 {
        assert(earlier =~= statements.take(k));
        lemma_build_commands(earlier);
    } else {
        assert(earlier.take(k) =~= statements.take(k));
        assert(statements.last() != StatementView::Label(name));
        lemma_label_address(earlier, k, name);
    }
}

/// A label that no statement declares has no address.
pub proof fn lemma_label_undeclared(statements: Seq<StatementView>, name: Seq<char>)
    requires
        forall|j: int| 0 <= j < statements.len() ==> statements[j] != StatementView::Label(name),
    ensures
        !build(statements).labels.contains_key(name),
    decreases statements.len(),
{
    if statements.len() > 0 {
        assert(statements.last() != StatementView::Label(name));
        lemma_label_undeclared(statements.drop_last(), name);
    }
}

impl AssemblerParser {
    /// Parses the source text `prg`.
    pub fn parse_program(prg: &str) -> (result: Result<Program, SyntaxError>)
        ensures
            parsed(prg@, result),
    {
        let chars = to_chars(prg);
        let mut program = Program::default();
        let mut error: Option<SyntaxError> = None;
        let mut line: Vec<char> = Vec::new();
        let mut line_no: usize = 0;
        let ghost mut done: Seq<StatementView> = Seq::empty();
        let mut i: usize = 0;
        proof {
            assert(chars@.take(0) =~= Seq::<char>::empty());
            assert(lines(chars@.take(0)).drop_last() =~= Seq::<Seq<char>>::empty());
            assert(line@ =~= lines(chars@.take(0)).last());
        }
        while i < chars.len()
            invariant
                i <= chars.len(),
                chars@ == prg@,
                program.wf(),
                line_no == lines(chars@.take(i as int)).len() - 1,
                match error {
                    Some(e) => statements(lines(chars@.take(i as int)).drop_last()) == Err::<
                        Seq<StatementView>,
                        SyntaxError,
                    >(e),
                    None => line@ == lines(chars@.take(i as int)).last() && statements(
                        lines(chars@.take(i as int)).drop_last(),
                    ) == Ok::<Seq<StatementView>, SyntaxError>(done) && program@ == build(done),
                },
            decreases chars.len() - i,
        {
            let c = chars[i];
            let ghost before = lines(chars@.take(i as int));
            let ghost after = lines(chars@.take(i + 1));
            proof {
                assert(chars@.take(i + 1).drop_last() =~= chars@.take(i as int));
                assert(chars@.take(i + 1).last() == c);
                lemma_lines_len(chars@.take(i as int));
                lemma_lines_len(chars@.take(i + 1));
            }
            if c == '\n' {
                proof {
                    assert(after.drop_last() =~= before);
                    assert(after.last() =~= Seq::<char>::empty());
                }
                if error.is_none() {
                    error = Self::parse_statement(&mut program, &line, line_no);
                    proof {
                        if let Ok(Some(statement)) = line_statement(line@) {
                            let ghost short = done;
                            done = short.push(statement);
                            assert(done.drop_last() =~= short);
                        }
                    }
                }
                line = Vec::new();
                line_no += 1;
            } else {
                proof {
                    assert(after.drop_last() =~= before.drop_last());
                    assert(after.last() == before.last().push(c));
                }
                if error.is_none() {
                    line.push(c);
                }
            }
            i += 1;
        }
        proof {
            assert(chars@.take(i as int) =~= chars@);
            lemma_lines_len(prg@);
        }
        if error.is_none() {
            error = Self::parse_statement(&mut program, &line, line_no);
            proof {
                if let Ok(Some(statement)) = line_statement(line@) {
                    let ghost short = done;
                    done = short.push(statement);
                    assert(done.drop_last() =~= short);
                }
            }
        }
        match error {
            Some(e) => Err(e),
            None => Ok(program),
        }
    }

    /// Parses one line and extends `prg` by its statement, if it holds
    /// one. Returns the error of a line that is no statement.
    pub fn parse_statement(prg: &mut Program, line: &Vec<char>, line_no: usize) -> (error: Option<SyntaxError>)
        requires
            old(prg).wf(),
        ensures
            final(prg).wf(),
            match line_statement(line@) {
                Ok(Some(statement)) => error is None && final(prg)@ == extend(
                    old(prg)@,
                    statement,
                ),
                Ok(None) => error is None && final(prg)@ == old(prg)@,
                Err(kind) => error == Some(SyntaxError { line: line_no, kind }) && final(prg)@
                    == old(prg)@,
            },
    {
        match parse_line(line) {
            Ok(Some(Statement::Label(label))) => {
                let address = prg.get_command_count();
                prg.set_label(label, address);
                None
            },
            Ok(Some(Statement::Command(verb, operands))) => {
                Self::parse_command(prg, verb, &operands);
                None
            },
            Ok(None) => None,
            Err(kind) => Some(SyntaxError { line: line_no, kind }),
        }
    }

    /// Appends to `prg` the instruction that `verb` forms with `operands`.
    pub fn parse_command(prg: &mut Program, verb: Rule, operands: &Vec<Token>)
        requires
            old(prg).wf(),
            operands_fit(verb, lexemes(operands@)),
        ensures
            final(prg).wf(),
            final(prg)@ == extend(
                old(prg)@,
                StatementView::Command(verb, lexemes(operands@)),
            ),
    {
        let cmd = match verb.command_shape() {
            Some(Rule::unit_command) => Self::parse_unit_command(verb),
            Some(Rule::unary_reg_command) => Self::parse_unary_reg_command(prg, verb, operands),
            Some(Rule::unary_regnum_command) => Self::parse_unary_regnum_command(
                prg,
                verb,
                operands,
            ),
            Some(Rule::unary_regstr_command) => Self::parse_unary_regstr_command(
                prg,
                verb,
                operands,
            ),
            Some(Rule::unary_ip_command) => Self::parse_unary_ip_command(prg, verb, operands),
            Some(Rule::binary_reg_regnum_command) => Self::parse_binary_reg_regnum_command(
                prg,
                verb,
                operands,
            ),
            _ => Self::parse_binary_reg_ip_command(prg, verb, operands),
        };
        prg.append_command(cmd);
    }

    /// The verb and the texts of the first and, if there is one, the second operand.
    pub fn read_command_parts<'a>(verb: Rule, operands: &'a Vec<Token>) -> (parts: (Rule, &'a str, Option<&'a str>))
        requires
            operands.len() >= 1,
        ensures
            parts.0 == verb,
            parts.1@ == operands[0]@.text(),
            operands.len() == 1 ==> parts.2 is None,
            operands.len() >= 2 ==> parts.2 is Some && parts.2->Some_0@ == operands[1]@.text(),
    {
        let lhs = operands[0].text();
        let rhs = if operands.len() >= 2 {
            Some(operands[1].text())
        } else {
            None
        };
        (verb, lhs, rhs)
    }

    /// The instruction of a command without operands.
    pub fn parse_unit_command(verb: Rule) -> (command: Command)
        requires
            verb.shape() == Some(Rule::unit_command),
        ensures
            command@ == Instruction::Ret,
    {
        Command::Ret
    }

    /// The instruction of a command with a register and a second operand
    /// that is a literal or a register.
    pub fn parse_binary_reg_regnum_command(
        prg: &mut Program,
        verb: Rule,
        operands: &Vec<Token>,
    ) -> (command: Command)
        requires
            old(prg).wf(),
            verb.shape() == Some(Rule::binary_reg_regnum_command),
            operands_fit(verb, lexemes(operands@)),
        ensures
            final(prg).wf(),
            final(prg)@.commands == old(prg)@.commands,
            final(prg)@.labels == old(prg)@.labels,
            (final(prg)@.reg_names, command@) == assemble(
                old(prg)@.reg_names,
                verb,
                lexemes(operands@),
            ),
            command@.regs_below(final(prg)@.reg_names.len() as int),
    {
        let (rule, lhs, rhs) = Self::read_command_parts(verb, operands);
        let lhs = prg.get_or_create_reg(lhs);
        let rhs = rhs.unwrap();
        match parse_i32(rhs) {
            Some(num) => Command::new_regnum(rule, lhs, num),
            None => {
                let reg = prg.get_or_create_reg(rhs);
                Command::new_regreg(rule, lhs, reg)
            },
        }
    }

    /// The instruction of a command with a register and a label.
    pub fn parse_binary_reg_ip_command(prg: &mut Program, verb: Rule, operands: &Vec<Token>) -> (command: Command)
        requires
            old(prg).wf(),
            verb.shape() == Some(Rule::binary_reg_ip_command),
            operands_fit(verb, lexemes(operands@)),
        ensures
            final(prg).wf(),
            final(prg)@.commands == old(prg)@.commands,
            final(prg)@.labels == old(prg)@.labels,
            (final(prg)@.reg_names, command@) == assemble(
                old(prg)@.reg_names,
                verb,
                lexemes(operands@),
            ),
            command@.regs_below(final(prg)@.reg_names.len() as int),
    {
        let (rule, lhs, rhs) = Self::read_command_parts(verb, operands);
        let lhs = prg.get_or_create_reg(lhs);
        Command::new_regip(rule, lhs, rhs.unwrap().to_owned())
    }

    /// The instruction of a command with one register.
    pub fn parse_unary_reg_command(prg: &mut Program, verb: Rule, operands: &Vec<Token>) -> (command: Command)
        requires
            old(prg).wf(),
            verb.shape() == Some(Rule::unary_reg_command),
            operands_fit(verb, lexemes(operands@)),
        ensures
            final(prg).wf(),
            final(prg)@.commands == old(prg)@.commands,
            final(prg)@.labels == old(prg)@.labels,
            (final(prg)@.reg_names, command@) == assemble(
                old(prg)@.reg_names,
                verb,
                lexemes(operands@),
            ),
            command@.regs_below(final(prg)@.reg_names.len() as int),
    {
        let (rule, lhs, _) = Self::read_command_parts(verb, operands);
        let lhs = prg.get_or_create_reg(lhs);
        Command::new_reg(rule, lhs)
    }

    /// The instruction of a command with one operand that is a register or
    /// a string literal.
    pub fn parse_unary_regstr_command(prg: &mut Program, verb: Rule, operands: &Vec<Token>) -> (command: Command)
        requires
            old(prg).wf(),
            verb.shape() == Some(Rule::unary_regstr_command),
            operands_fit(verb, lexemes(operands@)),
        ensures
            final(prg).wf(),
            final(prg)@.commands == old(prg)@.commands,
            final(prg)@.labels == old(prg)@.labels,
            (final(prg)@.reg_names, command@) == assemble(
                old(prg)@.reg_names,
                verb,
                lexemes(operands@),
            ),
            command@.regs_below(final(prg)@.reg_names.len() as int),
    {
        match &operands[0] {
            Token::Text(text) => Command::new_str(verb, text.as_str()),
            param => {
                let reg = prg.get_or_create_reg(param.text());
                Command::new_reg(verb, reg)
            },
        }
    }

    /// The instruction of a command with one operand that is a literal or
    /// a register.
    pub fn parse_unary_regnum_command(prg: &mut Program, verb: Rule, operands: &Vec<Token>) -> (command: Command)
        requires
            old(prg).wf(),
            verb.shape() == Some(Rule::unary_regnum_command),
            operands_fit(verb, lexemes(operands@)),
        ensures
            final(prg).wf(),
            final(prg)@.commands == old(prg)@.commands,
            final(prg)@.labels == old(prg)@.labels,
            (final(prg)@.reg_names, command@) == assemble(
                old(prg)@.reg_names,
                verb,
                lexemes(operands@),
            ),
            command@.regs_below(final(prg)@.reg_names.len() as int),
    {
        let (rule, lhs, _) = Self::read_command_parts(verb, operands);
        match parse_i32(lhs) {
            Some(num) => Command::new_num(rule, num),
            None => {
                let reg = prg.get_or_create_reg(lhs);
                Command::new_reg(rule, reg)
            },
        }
    }

    /// The instruction of a command with one label.
    pub fn parse_unary_ip_command(prg: &mut Program, verb: Rule, operands: &Vec<Token>) -> (command: Command)
        requires
            old(prg).wf(),
            verb.shape() == Some(Rule::unary_ip_command),
            operands_fit(verb, lexemes(operands@)),
        ensures
            final(prg).wf(),
            final(prg)@ == old(prg)@,
            (final(prg)@.reg_names, command@) == assemble(
                old(prg)@.reg_names,
                verb,
                lexemes(operands@),
            ),
            command@.regs_below(final(prg)@.reg_names.len() as int),
    {
        let (rule, lhs, _) = Self::read_command_parts(verb, operands);
        Command::new_ip(rule, lhs.to_owned())
    }
}

} // verus!
