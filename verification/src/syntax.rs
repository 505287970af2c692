//! The grammar of a source line: a label declaration, a command, or nothing.
//!
//! A label declaration is an identifier and a colon. A command is a verb
//! and the operands of its shape: none, one, or two with a comma between.

use vstd::prelude::*;
use crate::lexer::{lex, lex_line, lexemes, Lexeme, Token};
use crate::rule::Rule;
use crate::text::str_eq;

verus! {

/// Why a line is no statement.
#[derive(Debug, Copy, Clone, PartialEq, Eq, Structural)]
pub enum SyntaxErrorKind {
    /// Some character of the line starts no token.
    Token,
    /// The tokens of the line form neither a label declaration nor a command.
    Statement,
}

/// A line that is no statement.
#[derive(Debug, Copy, Clone, PartialEq, Eq, Structural)]
pub struct SyntaxError {
    /// The index of the line, counted from zero.
    pub line: usize,
    pub kind: SyntaxErrorKind,
}

/// A statement as a mathematical value.
pub enum StatementView {
    /// The declaration of a label.
    Label(Seq<char>),
    /// A verb with its operands.
    Command(Rule, Seq<Lexeme>),
}

/// A statement.
#[derive(Debug, Clone, PartialEq, Eq)]
pub enum Statement {
    /// The declaration of a label.
    Label(String),
    /// A verb with its operands.
    Command(Rule, Vec<Token>),
}

impl View for Statement {
    type V = StatementView;

    open spec fn view(&self) -> StatementView {
        match *self {
            Statement::Label(name) => StatementView::Label(name@),
            Statement::Command(verb, operands) => StatementView::Command(
                verb,
                lexemes(operands@),
            ),
        }
    }
}

/// The verb that `word` spells.
pub open spec fn keyword(word: Seq<char>) -> Option<Rule> {
    if word == "mov"@ {
        Some(Rule::mov_verb)
    } else if word == "add"@ {
        Some(Rule::add_verb)
    } else if word == "sub"@ {
        Some(Rule::sub_verb)
    } else if word == "mul"@ {
        Some(Rule::mul_verb)
    } else if word == "div"@ {
        Some(Rule::div_verb)
    } else if word == "inc"@ {
        Some(Rule::inc_verb)
    } else if word == "dec"@ {
        Some(Rule::dec_verb)
    } else if word == "print"@ {
        Some(Rule::print_verb)
    } else if word == "println"@ {
        Some(Rule::println_verb)
    } else if word == "read"@ {
        Some(Rule::read_verb)
    } else if word == "push"@ {
        Some(Rule::push_verb)
    } else if word == "pop"@ {
        Some(Rule::pop_verb)
    } else if word == "cmp"@ {
        Some(Rule::cmp_verb)
    } else if word == "jmp"@ {
        Some(Rule::jmp_verb)
    } else if word == "je"@ {
        Some(Rule::je_verb)
    } else if word == "jne"@ {
        Some(Rule::jne_verb)
    } else if word == "jg"@ {
        Some(Rule::jg_verb)
    } else if word == "jge"@ {
        Some(Rule::jge_verb)
    } else if word == "jl"@ {
        Some(Rule::jl_verb)
    } else if word == "jle"@ {
        Some(Rule::jle_verb)
    } else if word == "loop"@ {
        Some(Rule::loop_verb)
    } else if word == "call"@ {
        Some(Rule::call_verb)
    } else if word == "ret"@ {
        Some(Rule::ret_verb)
    } else {
        None
    }
}

/// Every keyword is a verb.
pub proof fn lemma_keyword_is_verb(word: Seq<char>)
    ensures
        keyword(word) matches Some(verb) ==> verb.is_verb(),
{
}

/// Whether `operands` are what the shape of `verb` asks for.
pub open spec fn operands_fit(verb: Rule, operands: Seq<Lexeme>) -> bool {
    match verb.shape() {
        Some(Rule::unit_command) => operands.len() == 0,
        Some(Rule::unary_reg_command) => operands.len() == 1 && operands[0] is Ident,
        Some(Rule::unary_regnum_command) => operands.len() == 1 && (operands[0] is Ident
            || operands[0] is Number),
        Some(Rule::unary_regstr_command) => operands.len() == 1 && (operands[0] is Ident
            || operands[0] is Text),
        Some(Rule::unary_ip_command) => operands.len() == 1 && operands[0] is Ident,
        Some(Rule::binary_reg_regnum_command) => operands.len() == 2 && operands[0] is Ident && (
        operands[1] is Ident || operands[1] is Number),
        Some(Rule::binary_reg_ip_command) => operands.len() == 2 && operands[0] is Ident
            && operands[1] is Ident,
        _ => false,
    }
}

impl StatementView {
    /// The validity of a statement: a command's operands fit its verb.
    pub open spec fn wf(self) -> bool {
        match self {
            StatementView::Label(_) => true,
            StatementView::Command(verb, operands) => operands_fit(verb, operands),
        }
    }
}

/// The operands that the tokens after a verb list: none, one, or two
/// around a comma.
pub open spec fn operand_list(tokens: Seq<Lexeme>) -> Option<Seq<Lexeme>> {
    if tokens.len() == 0 {
        Some(Seq::empty())
    } else if tokens.len() == 1 {
        Some(seq![tokens[0]])
    } else if tokens.len() == 3 && tokens[1] is Comma {
        Some(seq![tokens[0], tokens[2]])
    } else {
        None
    }
}

/// The statement that `tokens` form: `Some(None)` for no token at all,
/// `None` for tokens that form no statement.
pub open spec fn statement_of(tokens: Seq<Lexeme>) -> Option<Option<StatementView>> {
    if tokens.len() == 0 {
        Some(None)
    } else if tokens.len() == 2 && tokens[0] is Ident && tokens[1] is Colon {
        Some(Some(StatementView::Label(tokens[0]->Ident_0)))
    } else if tokens[0] is Ident {
        match (keyword(tokens[0]->Ident_0), operand_list(tokens.subrange(1, tokens.len() as int))) {
            (Some(verb), Some(operands)) => if operands_fit(verb, operands) {
                Some(Some(StatementView::Command(verb, operands)))
            } else {
                None
            },
            _ => None,
        }
    } else {
        None
    }
}

/// The statement that the line `line` holds: `Ok(None)` for a blank line.
pub open spec fn line_statement(line: Seq<char>) -> Result<
    Option<StatementView>,
    SyntaxErrorKind,
> {
    match lex(line) {
        Some(tokens) => match statement_of(tokens) {
            Some(statement) => Ok(statement),
            None => Err(SyntaxErrorKind::Statement),
        },
        None => Err(SyntaxErrorKind::Token),
    }
}

/// A line's statement is valid.
pub proof fn lemma_line_statement_wf(line: Seq<char>)
    ensures
        line_statement(line) matches Ok(Some(statement)) ==> statement.wf(),
{
}

/// The lines of `text`: what stands between its line feeds. A text
/// without a line feed is one line; a text that ends in a line feed has an
/// empty last line.
pub open spec fn lines(text: Seq<char>) -> Seq<Seq<char>>
    decreases text.len(),
{
    if text.len() == 0 {
        seq![Seq::empty()]
    } else {
        let before = lines(text.drop_last());
        if text.last() == '\n' {
            before.push(Seq::empty())
        } else {
            before.drop_last().push(before.last().push(text.last()))
        }
    }
}

/// A text has one line more than it has line feeds; so it has one at least.
pub proof fn lemma_lines_len(text: Seq<char>)
    ensures
        1 <= lines(text).len() <= text.len() + 1,
    decreases text.len(),
{
    if text.len() > 0 {
        lemma_lines_len(text.drop_last());
    }
}

/// The statements of `lines`, in order. The first line that is no
/// statement makes the whole an error, which names that line.
pub open spec fn statements(lines: Seq<Seq<char>>) -> Result<Seq<StatementView>, SyntaxError>
    decreases lines.len(),
{
    if lines.len() == 0 {
        Ok(Seq::empty())
    } else {
        match statements(lines.drop_last()) {
            Ok(earlier) => match line_statement(lines.last()) {
                Ok(Some(statement)) => Ok(earlier.push(statement)),
                Ok(None) => Ok(earlier),
                Err(kind) => Err(SyntaxError { line: (lines.len() - 1) as usize, kind }),
            },
            Err(error) => Err(error),
        }
    }
}

/// The verb that `word` spells.
pub fn verb_of(word: &str) -> (verb: Option<Rule>)
    ensures
        verb == keyword(word@),
{
    if str_eq(word, "mov") {
        Some(Rule::mov_verb)
    } else if str_eq(word, "add") {
        Some(Rule::add_verb)
    } else if str_eq(word, "sub") {
        Some(Rule::sub_verb)
    } else if str_eq(word, "mul") {
        Some(Rule::mul_verb)
    } else if str_eq(word, "div") {
        Some(Rule::div_verb)
    } else if str_eq(word, "inc") {
        Some(Rule::inc_verb)
    } else if str_eq(word, "dec") {
        Some(Rule::dec_verb)
    } else if str_eq(word, "print") {
        Some(Rule::print_verb)
    } else if str_eq(word, "println") {
        Some(Rule::println_verb)
    } else if str_eq(word, "read") {
        Some(Rule::read_verb)
    } else if str_eq(word, "push") {
        Some(Rule::push_verb)
    } else if str_eq(word, "pop") {
        Some(Rule::pop_verb)
    } else if str_eq(word, "cmp") {
        Some(Rule::cmp_verb)
    } else if str_eq(word, "jmp") {
        Some(Rule::jmp_verb)
    } else if str_eq(word, "je") {
        Some(Rule::je_verb)
    } else if str_eq(word, "jne") {
        Some(Rule::jne_verb)
    } else if str_eq(word, "jg") {
        Some(Rule::jg_verb)
    } else if str_eq(word, "jge") {
        Some(Rule::jge_verb)
    } else if str_eq(word, "jl") {
        Some(Rule::jl_verb)
    } else if str_eq(word, "jle") {
        Some(Rule::jle_verb)
    } else if str_eq(word, "loop") {
        Some(Rule::loop_verb)
    } else if str_eq(word, "call") {
        Some(Rule::call_verb)
    } else if str_eq(word, "ret") {
        Some(Rule::ret_verb)
    } else {
        None
    }
}

/// Whether the token is an identifier.
fn is_ident(token: &Token) -> (yes: bool)
    ensures
        yes == (token@ is Ident),
{
    match token {
        Token::Ident(_) => true,
        _ => false,
    }
}

/// Whether the token is a number.
fn is_number(token: &Token) -> (yes: bool)
    ensures
        yes == (token@ is Number),
{
    match token {
        Token::Number(_) => true,
        _ => false,
    }
}

/// Whether the token is a string.
fn is_text(token: &Token) -> (yes: bool)
    ensures
        yes == (token@ is Text),
{
    match token {
        Token::Text(_) => true,
        _ => false,
    }
}

/// Whether `operands` are what the shape of `verb` asks for.
pub fn check_operands(verb: Rule, operands: &Vec<Token>) -> (fit: bool)
    ensures
        fit == operands_fit(verb, lexemes(operands@)),
{
    let n = operands.len();
    match verb.command_shape() {
        Some(Rule::unit_command) => n == 0,
        Some(Rule::unary_reg_command) => n == 1 && is_ident(&operands[0]),
        Some(Rule::unary_regnum_command) => n == 1 && (is_ident(&operands[0]) || is_number(
            &operands[0],
        )),
        Some(Rule::unary_regstr_command) => n == 1 && (is_ident(&operands[0]) || is_text(
            &operands[0],
        )),
        Some(Rule::unary_ip_command) => n == 1 && is_ident(&operands[0]),
        Some(Rule::binary_reg_regnum_command) => n == 2 && is_ident(&operands[0]) && (is_ident(
            &operands[1],
        ) || is_number(&operands[1])),
        Some(Rule::binary_reg_ip_command) => n == 2 && is_ident(&operands[0]) && is_ident(
            &operands[1],
        ),
        _ => false,
    }
}

/// The statement that `tokens` form.
pub fn classify(tokens: Vec<Token>) -> (found: Option<Option<Statement>>)
    ensures
        match statement_of(lexemes(tokens@)) {
            Some(Some(statement)) => found matches Some(Some(s)) && s@ == statement,
            Some(None) => found == Some(None::<Statement>),
            None => found is None,
        },
{
    let ghost all = lexemes(tokens@);
    let mut tokens = tokens;
    let n = tokens.len();
    if n == 0 {
        return Some(None);
    }
    if n == 3 || n > 4 {
        return None;
    }
    let fourth = if n == 4 {
        tokens.pop()
    } else {
        None
    };
    let third = if n == 4 {
        tokens.pop()
    } else {
        None
    };
    let second = if n >= 2 {
        tokens.pop()
    } else {
        None
    };
    let first = tokens.pop();
    assert(first matches Some(t) && t@ == all[0]);
    assert(n >= 2 ==> (second matches Some(t) && t@ == all[1]));
    assert(n == 4 ==> (third matches Some(t) && t@ == all[2]));
    assert(n == 4 ==> (fourth matches Some(t) && t@ == all[3]));
    let ghost tail = all.subrange(1, n as int);
    let name = match first {
        Some(Token::Ident(name)) => name,
        _ => {
            return None;
        },
    };
    let mut operands: Vec<Token> = Vec::new();
    match second {
        Some(Token::Colon) => {
            if n == 2 {
                return Some(Some(Statement::Label(name)));
            }
            operands.push(Token::Colon);
        },
        Some(token) => {
            operands.push(token);
        },
        None => {},
    }
    match third {
        Some(Token::Comma) => {},
        Some(_) => {
            return None;
        },
        None => {},
    }
    match fourth {
        Some(token) => {
            operands.push(token);
        },
        None => {},
    }
    assert(operand_list(tail) == Some(lexemes(operands@))) by {
        assert(lexemes(operands@) =~= operand_list(tail)->Some_0);
    }
    match verb_of(name.as_str()) {
        Some(verb) => {
            if check_operands(verb, &operands) {
                Some(Some(Statement::Command(verb, operands)))
            } else {
                None
            }
        },
        None => None,
    }
}

/// The statement that the line `line` holds: `Ok(None)` for a blank line.
pub fn parse_line(line: &Vec<char>) -> (found: Result<Option<Statement>, SyntaxErrorKind>)
    ensures
        match line_statement(line@) {
            Ok(Some(statement)) => found matches Ok(Some(s)) && s@ == statement && s@.wf(),
            Ok(None) => found == Ok::<Option<Statement>, SyntaxErrorKind>(None),
            Err(kind) => found == Err::<Option<Statement>, SyntaxErrorKind>(kind),
        },
{
    match lex_line(line) {
        Some(tokens) => match classify(tokens) {
            Some(statement) => Ok(statement),
            None => Err(SyntaxErrorKind::Statement),
        },
        None => Err(SyntaxErrorKind::Token),
    }
}

} // verus!
