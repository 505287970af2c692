//! The lexical grammar: how a source line falls into tokens.
//!
//! A line is a sequence of tokens that blanks may separate. A token is an
//! identifier (a letter or `_`, then letters, digits and `_`), a number
//! (an optional sign, then digits), a string (any characters but `"`
//! between two `"`), a comma or a colon.

use vstd::prelude::*;
use crate::number::{integer_value, is_digit, spec_parse_i32};
use crate::text::to_string;

verus! {

/// Whether `c` separates tokens: a space, a tab or a carriage return.
pub open spec fn is_space(c: char) -> bool {
    c == ' ' || c == '\t' || c == '\r'
}

/// Whether an identifier can start with `c`.
pub open spec fn is_ident_start(c: char) -> bool {
    ('a' <= c <= 'z') || ('A' <= c <= 'Z') || c == '_'
}

/// Whether an identifier can go on with `c`.
pub open spec fn is_ident_char(c: char) -> bool {
    is_ident_start(c) || is_digit(c)
}

/// The kinds of character of which a token's tail is a maximal run.
#[derive(Debug, Copy, Clone, PartialEq, Eq, Structural)]
pub enum Class {
    /// Letters, digits and `_`.
    Ident,
    /// Digits.
    Digit,
    /// Every character but `"`.
    Quoted,
}

impl Class {
    /// Whether `c` belongs to the class.
    pub open spec fn has(self, c: char) -> bool {
        match self {
            Class::Ident => is_ident_char(c),
            Class::Digit => is_digit(c),
            Class::Quoted => c != '"',
        }
    }

    /// Whether `c` belongs to the class.
    pub fn contains(self, c: char) -> (found: bool)
        ensures
            found == self.has(c),
    {
        match self {
            Class::Ident => (c >= 'a' && c <= 'z') || (c >= 'A' && c <= 'Z') || c == '_' || (c
                >= '0' && c <= '9'),
            Class::Digit => c >= '0' && c <= '9',
            Class::Quoted => c != '"',
        }
    }
}

/// Where the run of characters of `class` that starts at `from` ends: the
/// first index from there on that holds no character of the class.
pub open spec fn run_end(s: Seq<char>, class: Class, from: int) -> int
    decreases s.len() - from,
{
    if 0 <= from < s.len() && class.has(s[from]) {
        run_end(s, class, from + 1)
    } else {
        from
    }
}

/// A run ends at or after its start, inside the text or at its end; it
/// holds characters of the class only, and the character after it is none.
pub proof fn lemma_run_end(s: Seq<char>, class: Class, from: int)
    requires
        0 <= from <= s.len(),
    ensures
        from <= run_end(s, class, from) <= s.len(),
        forall|k: int| from <= k < run_end(s, class, from) ==> class.has(#[trigger] s[k]),
        run_end(s, class, from) < s.len() ==> !class.has(s[run_end(s, class, from)]),
    decreases s.len() - from,
{
    if from < s.len() && class.has(s[from]) {
        lemma_run_end(s, class, from + 1);
    }
}

/// A token as a mathematical value.
pub enum Lexeme {
    Ident(Seq<char>),
    Number(Seq<char>),
    Text(Seq<char>),
    Comma,
    Colon,
}

impl Lexeme {
    /// The characters that the token carries: an identifier's name, a
    /// number's notation, a string's content; none for punctuation.
    pub open spec fn text(self) -> Seq<char> {
        match self {
            Lexeme::Ident(text) => text,
            Lexeme::Number(text) => text,
            Lexeme::Text(text) => text,
            _ => Seq::empty(),
        }
    }

    /// Whether the token has the shape of its kind: an identifier starts
    /// with a letter or `_` and goes on with letters, digits and `_`; a
    /// number denotes an integer; a string holds no `"`.
    pub open spec fn wf(self) -> bool {
        match self {
            Lexeme::Ident(text) => text.len() > 0 && is_ident_start(text[0]) && forall|k: int|
                0 <= k < text.len() ==> is_ident_char(#[trigger] text[k]),
            Lexeme::Number(text) => integer_value(text) is Some,
            Lexeme::Text(text) => forall|k: int| 0 <= k < text.len() ==> #[trigger] text[k] != '"',
            _ => true,
        }
    }
}

/// A token.
#[derive(Debug, Clone, PartialEq, Eq)]
pub enum Token {
    /// An identifier: a register name, a label or a verb.
    Ident(String),
    /// A number, as written.
    Number(String),
    /// The content of a string literal, without its quotes.
    Text(String),
    Comma,
    Colon,
}

impl View for Token {
    type V = Lexeme;

    open spec fn view(&self) -> Lexeme {
        match *self {
            Token::Ident(text) => Lexeme::Ident(text@),
            Token::Number(text) => Lexeme::Number(text@),
            Token::Text(text) => Lexeme::Text(text@),
            Token::Comma => Lexeme::Comma,
            Token::Colon => Lexeme::Colon,
        }
    }
}

impl Token {
    /// The characters that the token carries.
    pub fn text(&self) -> (text: &str)
        ensures
            text@ == self@.text(),
    {
        match self {
            Token::Ident(text) => text.as_str(),
            Token::Number(text) => text.as_str(),
            Token::Text(text) => text.as_str(),
            _ => {
                proof {
                    reveal_strlit("");
                }
                assert(""@ =~= Seq::<char>::empty());
                ""
            },
        }
    }
}

/// The tokens of a list, each as a mathematical value.
pub open spec fn lexemes(tokens: Seq<Token>) -> Seq<Lexeme> {
    tokens.map_values(|t: Token| t@)
}

/// The token that starts at index `i` of `s`, with the index after it;
/// `None` if no token starts there.
pub open spec fn token_at(s: Seq<char>, i: int) -> Option<(Lexeme, int)>
    recommends
        0 <= i < s.len(),
{
    let c = s[i];
    if c == ',' {
        Some((Lexeme::Comma, i + 1))
    } else if c == ':' {
        Some((Lexeme::Colon, i + 1))
    } else if c == '"' {
        let end = run_end(s, Class::Quoted, i + 1);
        if end < s.len() {
            Some((Lexeme::Text(s.subrange(i + 1, end)), end + 1))
        } else {
            None
        }
    } else if is_ident_start(c) {
        let end = run_end(s, Class::Ident, i + 1);
        Some((Lexeme::Ident(s.subrange(i, end)), end))
    } else if is_digit(c) || ((c == '-' || c == '+') && i + 1 < s.len() && is_digit(s[i + 1])) {
        let end = run_end(s, Class::Digit, i + 1);
        Some((Lexeme::Number(s.subrange(i, end)), end))
    } else {
        None
    }
}

/// A token is not empty and lies inside the text.
pub proof fn lemma_token_at(s: Seq<char>, i: int)
    requires
        0 <= i < s.len(),
    ensures
        token_at(s, i) matches Some((_, end)) ==> i < end <= s.len(),
{
    lemma_run_end(s, Class::Quoted, i + 1);
    lemma_run_end(s, Class::Ident, i + 1);
    lemma_run_end(s, Class::Digit, i + 1);
}

/// The token that starts at an index has the shape of its kind.
pub proof fn lemma_token_at_wf(s: Seq<char>, i: int)
    requires
        0 <= i < s.len(),
    ensures
        token_at(s, i) matches Some((token, _)) ==> token.wf(),
{
    lemma_run_end(s, Class::Quoted, i + 1);
    lemma_run_end(s, Class::Ident, i + 1);
    lemma_run_end(s, Class::Digit, i + 1);
    match token_at(s, i) {
        Some((Lexeme::Ident(text), end)) => {
            assert forall|k: int| 0 <= k < text.len() implies is_ident_char(#[trigger] text[k]) by {
                if k > 0 {
                    assert(Class::Ident.has(s[i + k]));
                }
            }
        },
        Some((Lexeme::Number(text), end)) => {
            let signed = text[0] == '-' || text[0] == '+';
            let body = if signed {
                text.subrange(1, text.len() as int)
            } else {
                text
            };
            assert forall|k: int| 0 <= k < body.len() implies is_digit(#[trigger] body[k]) by {
                if signed {
                    assert(Class::Digit.has(s[i + 1 + k]));
                } else if k > 0 {
                    assert(Class::Digit.has(s[i + k]));
                }
            }
        },
        Some((Lexeme::Text(text), end)) => {
            assert forall|k: int| 0 <= k < text.len() implies #[trigger] text[k] != '"' by {
                assert(Class::Quoted.has(s[i + 1 + k]));
            }
        },
        _ => {},
    }
}

/// An identifier denotes no integer.
pub proof fn lemma_ident_is_no_integer(text: Seq<char>)
    requires
        Lexeme::Ident(text).wf(),
    ensures
        spec_parse_i32(text) is None,
{
    assert(!is_digit(text[0]));
}

/// The tokens of `s` from index `i` on; `None` if some character there
/// starts no token.
pub open spec fn lex_from(s: Seq<char>, i: int) -> Option<Seq<Lexeme>>
    decreases s.len() - i,
{
    if i < 0 || i >= s.len() {
        Some(Seq::empty())
    } else if is_space(s[i]) {
        lex_from(s, i + 1)
    } else {
        match token_at(s, i) {
            Some((token, end)) => {
                proof {
                    lemma_token_at(s, i);
                }
                match lex_from(s, end) {
                    Some(rest) => Some(seq![token] + rest),
                    None => None,
                }
            },
            None => None,
        }
    }
}

/// The tokens of the line `s`; `None` if it is not a sequence of tokens.
pub open spec fn lex(s: Seq<char>) -> Option<Seq<Lexeme>> {
    lex_from(s, 0)
}

/// Every token of a line has the shape of its kind.
pub proof fn lemma_lex_wf(s: Seq<char>, i: int)
    ensures
        lex_from(s, i) matches Some(tokens) ==> forall|k: int|
            0 <= k < tokens.len() ==> (#[trigger] tokens[k]).wf(),
    decreases s.len() - i,
{
    if 0 <= i < s.len() {
        if is_space(s[i]) {
            lemma_lex_wf(s, i + 1);
        } else if let Some((token, end)) = token_at(s, i) {
            lemma_token_at(s, i);
            lemma_token_at_wf(s, i);
            lemma_lex_wf(s, end);
        }
    }
}

/// The tokens read so far, followed by those to come.
pub open spec fn joined(read: Seq<Lexeme>, coming: Option<Seq<Lexeme>>) -> Option<Seq<Lexeme>> {
    match coming {
        Some(rest) => Some(read + rest),
        None => None,
    }
}

/// The end of the run of characters of `class` that starts at `from`.
pub fn scan(line: &Vec<char>, class: Class, from: usize) -> (end: usize)
    requires
        from <= line.len(),
    ensures
        end == run_end(line@, class, from as int),
        from <= end <= line.len(),
{
    let mut end: usize = from;
    while end < line.len() && class.contains(line[end])
        invariant
            from <= end <= line.len(),
            run_end(line@, class, from as int) == run_end(line@, class, end as int),
        decreases line.len() - end,
    {
        end += 1;
    }
    end
}

/// The token that starts at index `i` of `line`, with the index after it.
pub fn next_token(line: &Vec<char>, i: usize) -> (found: Option<(Token, usize)>)
    requires
        i < line.len(),
    ensures
        match token_at(line@, i as int) {
            Some((token, end)) => found matches Some((t, e)) && t@ == token && e == end,
            None => found is None,
        },
        found matches Some((_, e)) ==> i < e <= line.len(),
{
    let c = line[i];
    proof {
        lemma_token_at(line@, i as int);
    }
    if c == ',' {
        Some((Token::Comma, i + 1))
    } else if c == ':' {
        Some((Token::Colon, i + 1))
    } else if c == '"' {
        let end = scan(line, Class::Quoted, i + 1);
        if end < line.len() {
            Some((Token::Text(to_string(line, i + 1, end)), end + 1))
        } else {
            None
        }
    } else if (c >= 'a' && c <= 'z') || (c >= 'A' && c <= 'Z') || c == '_' {
        let end = scan(line, Class::Ident, i + 1);
        Some((Token::Ident(to_string(line, i, end)), end))
    } else if (c >= '0' && c <= '9') || ((c == '-' || c == '+') && i + 1 < line.len() && line[i
        + 1] >= '0' && line[i + 1] <= '9') {
        let end = scan(line, Class::Digit, i + 1);
        Some((Token::Number(to_string(line, i, end)), end))
    } else {
        None
    }
}

/// The tokens of `line`, or `None` if it is not a sequence of tokens.
pub fn lex_line(line: &Vec<char>) -> (tokens: Option<Vec<Token>>)
    ensures
        match lex(line@) {
            Some(expected) => tokens matches Some(ts) && lexemes(ts@) == expected,
            None => tokens is None,
        },
{
    let mut tokens: Vec<Token> = Vec::new();
    let mut i: usize = 0;
    assert(lexemes(tokens@) =~= Seq::empty());
    assert(joined(lexemes(tokens@), lex_from(line@, 0)) == lex(line@)) by {
        if lex(line@) is Some {
            assert(Seq::<Lexeme>::empty() + lex(line@)->Some_0 =~= lex(line@)->Some_0);
        }
    }
    while i < line.len()
        invariant
            i <= line.len(),
            lex(line@) == joined(lexemes(tokens@), lex_from(line@, i as int)),
        decreases line.len() - i,
    {
        let c = line[i];
        if c == ' ' || c == '\t' || c == '\r' {
            i += 1;
        } else {
            match next_token(line, i) {
                Some((token, end)) => {
                    proof {
                        let read = lexemes(tokens@);
                        let longer = lexemes(tokens@.push(token));
                        assert(longer =~= read.push(token@));
                        if lex_from(line@, end as int) is Some {
                            let rest = lex_from(line@, end as int)->Some_0;
                            assert(read + (seq![token@] + rest) =~= longer + rest);
                        }
                    }
                    tokens.push(token);
                    i = end;
                },
                None => {
                    return None;
                },
            }
        }
    }
    assert(lexemes(tokens@) + Seq::<Lexeme>::empty() =~= lexemes(tokens@));
    Some(tokens)
}

} // verus!
