//! The instruction set: the executable `Command` and its mathematical view,
//! `Instruction`, grouped by what an instruction does.

use vstd::prelude::*;
use crate::rule::Rule;
use crate::types::{Label, RegIndex};

verus! {

/// A two-operand operation that writes its result to the first operand.
#[derive(Debug, Copy, Clone, PartialEq, Eq, Structural)]
pub enum BinaryOp {
    Mov,
    Add,
    Sub,
    Mul,
    Div,
}

/// A one-operand operation that rewrites its operand.
#[derive(Debug, Copy, Clone, PartialEq, Eq, Structural)]
pub enum UnaryOp {
    Inc,
    Dec,
}

/// The condition under which a jump is taken.
#[derive(Debug, Copy, Clone, PartialEq, Eq, Structural)]
pub enum Condition {
    Always,
    Equal,
    NotEqual,
    Greater,
    GreaterOrEqual,
    Less,
    LessOrEqual,
}

/// Where a value is read from: a register or the instruction itself.
pub enum Source {
    Reg(RegIndex),
    Num(i32),
}

/// What a print instruction writes: a register's value or a fixed text.
pub enum Message {
    Reg(RegIndex),
    Text(Seq<char>),
}

/// An instruction as a mathematical value.
pub enum Instruction {
    /// `dest := dest OP source` (`Mov`: `dest := source`).
    Binary(BinaryOp, RegIndex, Source),
    /// `reg := reg + 1` or `reg := reg - 1`.
    Unary(UnaryOp, RegIndex),
    /// Sets the flags from `reg - source`.
    Compare(RegIndex, Source),
    /// Pushes the value on the stack.
    Push(Source),
    /// Pops the top of the stack into the register.
    Pop(RegIndex),
    /// Stores the next input value in the register.
    Read(RegIndex),
    /// Writes the message; the flag asks for a line terminator after it.
    Print(Message, bool),
    /// Continues at the label if the condition holds.
    Jump(Condition, Seq<char>),
    /// Decrements the register and continues at the label while it stays positive.
    Loop(RegIndex, Seq<char>),
    /// Pushes the address of the next instruction and continues at the label.
    Call(Seq<char>),
    /// Pops an address and continues there.
    Ret,
}

impl Source {
    /// Whether a register named by the operand, if any, has an index below `n`.
    pub open spec fn below(self, n: int) -> bool {
        match self {
            Source::Reg(r) => r < n,
            Source::Num(_) => true,
        }
    }
}

impl Instruction {
    /// Whether every register that the instruction names has an index below `n`.
    pub open spec fn regs_below(self, n: int) -> bool {
        match self {
            Instruction::Binary(_, dest, source) => dest < n && source.below(n),
            Instruction::Unary(_, reg) => reg < n,
            Instruction::Compare(reg, source) => reg < n && source.below(n),
            Instruction::Push(source) => source.below(n),
            Instruction::Pop(reg) => reg < n,
            Instruction::Read(reg) => reg < n,
            Instruction::Print(Message::Reg(reg), _) => reg < n,
            Instruction::Print(Message::Text(_), _) => true,
            Instruction::Jump(_, _) => true,
            Instruction::Loop(reg, _) => reg < n,
            Instruction::Call(_) => true,
            Instruction::Ret => true,
        }
    }

    /// Whether the instruction can send control anywhere but to its successor.
    pub open spec fn transfers_control(self) -> bool {
        self is Jump || self is Loop || self is Call || self is Ret
    }
}

/// An instruction as the program stores it.
#[derive(Debug, Clone, PartialEq, Eq)]
pub enum Command {
    MovRegReg(RegIndex, RegIndex),
    MovRegNum(RegIndex, i32),
    AddRegReg(RegIndex, RegIndex),
    AddRegNum(RegIndex, i32),
    SubRegReg(RegIndex, RegIndex),
    SubRegNum(RegIndex, i32),
    MulRegReg(RegIndex, RegIndex),
    MulRegNum(RegIndex, i32),
    DivRegReg(RegIndex, RegIndex),
    DivRegNum(RegIndex, i32),
    Inc(RegIndex),
    Dec(RegIndex),
    PrintReg(RegIndex),
    PrintStr(String),
    PrintlnReg(RegIndex),
    PrintlnStr(String),
    ReadReg(RegIndex),
    PushReg(RegIndex),
    PushNum(i32),
    PopReg(RegIndex),
    CmpRegReg(RegIndex, RegIndex),
    CmpRegNum(RegIndex, i32),
    Jmp(Label),
    Je(Label),
    Jne(Label),
    Jg(Label),
    Jge(Label),
    Jl(Label),
    Jle(Label),
    Loop(RegIndex, Label),
    Call(Label),
    Ret,
}

impl View for Command {
    type V = Instruction;

    open spec fn view(&self) -> Instruction {
        match *self {
            Command::MovRegReg(l, r) => Instruction::Binary(BinaryOp::Mov, l, Source::Reg(r)),
            Command::MovRegNum(l, n) => Instruction::Binary(BinaryOp::Mov, l, Source::Num(n)),
            Command::AddRegReg(l, r) => Instruction::Binary(BinaryOp::Add, l, Source::Reg(r)),
            Command::AddRegNum(l, n) => Instruction::Binary(BinaryOp::Add, l, Source::Num(n)),
            Command::SubRegReg(l, r) => Instruction::Binary(BinaryOp::Sub, l, Source::Reg(r)),
            Command::SubRegNum(l, n) => Instruction::Binary(BinaryOp::Sub, l, Source::Num(n)),
            Command::MulRegReg(l, r) => Instruction::Binary(BinaryOp::Mul, l, Source::Reg(r)),
            Command::MulRegNum(l, n) => Instruction::Binary(BinaryOp::Mul, l, Source::Num(n)),
            Command::DivRegReg(l, r) => Instruction::Binary(BinaryOp::Div, l, Source::Reg(r)),
            Command::DivRegNum(l, n) => Instruction::Binary(BinaryOp::Div, l, Source::Num(n)),
            Command::Inc(reg) => Instruction::Unary(UnaryOp::Inc, reg),
            Command::Dec(reg) => Instruction::Unary(UnaryOp::Dec, reg),
            Command::PrintReg(reg) => Instruction::Print(Message::Reg(reg), false),
            Command::PrintStr(text) => Instruction::Print(Message::Text(text@), false),
            Command::PrintlnReg(reg) => Instruction::Print(Message::Reg(reg), true),
            Command::PrintlnStr(text) => Instruction::Print(Message::Text(text@), true),
            Command::ReadReg(reg) => Instruction::Read(reg),
            Command::PushReg(reg) => Instruction::Push(Source::Reg(reg)),
            Command::PushNum(n) => Instruction::Push(Source::Num(n)),
            Command::PopReg(reg) => Instruction::Pop(reg),
            Command::CmpRegReg(l, r) => Instruction::Compare(l, Source::Reg(r)),
            Command::CmpRegNum(l, n) => Instruction::Compare(l, Source::Num(n)),
            Command::Jmp(label) => Instruction::Jump(Condition::Always, label@),
            Command::Je(label) => Instruction::Jump(Condition::Equal, label@),
            Command::Jne(label) => Instruction::Jump(Condition::NotEqual, label@),
            Command::Jg(label) => Instruction::Jump(Condition::Greater, label@),
            Command::Jge(label) => Instruction::Jump(Condition::GreaterOrEqual, label@),
            Command::Jl(label) => Instruction::Jump(Condition::Less, label@),
            Command::Jle(label) => Instruction::Jump(Condition::LessOrEqual, label@),
            Command::Loop(reg, label) => Instruction::Loop(reg, label@),
            Command::Call(label) => Instruction::Call(label@),
            Command::Ret => Instruction::Ret,
        }
    }
}

/// The operation that an arithmetic verb names.
pub open spec fn binary_op(verb: Rule) -> Option<BinaryOp> {
    match verb {
        Rule::mov_verb => Some(BinaryOp::Mov),
        Rule::add_verb => Some(BinaryOp::Add),
        Rule::sub_verb => Some(BinaryOp::Sub),
        Rule::mul_verb => Some(BinaryOp::Mul),
        Rule::div_verb => Some(BinaryOp::Div),
        _ => None,
    }
}

/// The condition that a jump verb names.
pub open spec fn condition(verb: Rule) -> Option<Condition> {
    match verb {
        Rule::jmp_verb => Some(Condition::Always),
        Rule::je_verb => Some(Condition::Equal),
        Rule::jne_verb => Some(Condition::NotEqual),
        Rule::jg_verb => Some(Condition::Greater),
        Rule::jge_verb => Some(Condition::GreaterOrEqual),
        Rule::jl_verb => Some(Condition::Less),
        Rule::jle_verb => Some(Condition::LessOrEqual),
        _ => None,
    }
}

/// The instruction that `verb` forms with one register; `None` if it forms none.
pub open spec fn reg_form(verb: Rule, reg: RegIndex) -> Option<Instruction> {
    match verb {
        Rule::inc_verb => Some(Instruction::Unary(UnaryOp::Inc, reg)),
        Rule::dec_verb => Some(Instruction::Unary(UnaryOp::Dec, reg)),
        Rule::push_verb => Some(Instruction::Push(Source::Reg(reg))),
        Rule::pop_verb => Some(Instruction::Pop(reg)),
        Rule::print_verb => Some(Instruction::Print(Message::Reg(reg), false)),
        Rule::println_verb => Some(Instruction::Print(Message::Reg(reg), true)),
        Rule::read_verb => Some(Instruction::Read(reg)),
        _ => None,
    }
}

/// The instruction that `verb` forms with one integer literal.
pub open spec fn num_form(verb: Rule, num: i32) -> Option<Instruction> {
    match verb {
        Rule::push_verb => Some(Instruction::Push(Source::Num(num))),
        _ => None,
    }
}

/// The instruction that `verb` forms with one string literal.
pub open spec fn str_form(verb: Rule, text: Seq<char>) -> Option<Instruction> {
    match verb {
        Rule::print_verb => Some(Instruction::Print(Message::Text(text), false)),
        Rule::println_verb => Some(Instruction::Print(Message::Text(text), true)),
        _ => None,
    }
}

/// The instruction that `verb` forms with one label.
pub open spec fn ip_form(verb: Rule, label: Seq<char>) -> Option<Instruction> {
    match verb {
        Rule::call_verb => Some(Instruction::Call(label)),
        _ => match condition(verb) {
            Some(cond) => Some(Instruction::Jump(cond, label)),
            None => None,
        },
    }
}

/// The instruction that `verb` forms with a register and a second operand.
pub open spec fn binary_form(verb: Rule, reg: RegIndex, source: Source) -> Option<Instruction> {
    match verb {
        Rule::cmp_verb => Some(Instruction::Compare(reg, source)),
        _ => match binary_op(verb) {
            Some(op) => Some(Instruction::Binary(op, reg, source)),
            None => None,
        },
    }
}

/// The instruction that `verb` forms with a register and a label.
pub open spec fn regip_form(verb: Rule, reg: RegIndex, label: Seq<char>) -> Option<Instruction> {
    match verb {
        Rule::loop_verb => Some(Instruction::Loop(reg, label)),
        _ => None,
    }
}

impl Command {
    /// The command that `verb` forms with the register `reg`.
    pub fn new_reg(verb: Rule, reg: RegIndex) -> (command: Command)
        requires
            reg_form(verb, reg) is Some,
        ensures
            Some(command@) == reg_form(verb, reg),
    {
        match verb {
            Rule::inc_verb => Command::Inc(reg),
            Rule::dec_verb => Command::Dec(reg),
            Rule::push_verb => Command::PushReg(reg),
            Rule::pop_verb => Command::PopReg(reg),
            Rule::print_verb => Command::PrintReg(reg),
            Rule::println_verb => Command::PrintlnReg(reg),
            _ => Command::ReadReg(reg),
        }
    }

    /// The command that `verb` forms with the literal `num`.
    pub fn new_num(verb: Rule, num: i32) -> (command: Command)
        requires
            num_form(verb, num) is Some,
        ensures
            Some(command@) == num_form(verb, num),
    {
        Command::PushNum(num)
    }

    /// The command that `verb` forms with the string literal `text`.
    pub fn new_str(verb: Rule, text: &str) -> (command: Command)
        requires
            str_form(verb, text@) is Some,
        ensures
            Some(command@) == str_form(verb, text@),
    {
        match verb {
            Rule::print_verb => Command::PrintStr(text.to_owned()),
            _ => Command::PrintlnStr(text.to_owned()),
        }
    }

    /// The command that `verb` forms with the label `lbl`.
    pub fn new_ip(verb: Rule, lbl: Label) -> (command: Command)
        requires
            ip_form(verb, lbl@) is Some,
        ensures
            Some(command@) == ip_form(verb, lbl@),
    {
        match verb {
            Rule::jmp_verb => Command::Jmp(lbl),
            Rule::je_verb => Command::Je(lbl),
            Rule::jne_verb => Command::Jne(lbl),
            Rule::jl_verb => Command::Jl(lbl),
            Rule::jle_verb => Command::Jle(lbl),
            Rule::jg_verb => Command::Jg(lbl),
            Rule::jge_verb => Command::Jge(lbl),
            _ => Command::Call(lbl),
        }
    }

    /// The command that `verb` forms with the register `lreg` and the literal `num`.
    pub fn new_regnum(verb: Rule, lreg: RegIndex, num: i32) -> (command: Command)
        requires
            binary_form(verb, lreg, Source::Num(num)) is Some,
        ensures
            Some(command@) == binary_form(verb, lreg, Source::Num(num)),
    {
        match verb {
            Rule::mov_verb => Command::MovRegNum(lreg, num),
            Rule::add_verb => Command::AddRegNum(lreg, num),
            Rule::sub_verb => Command::SubRegNum(lreg, num),
            Rule::mul_verb => Command::MulRegNum(lreg, num),
            Rule::div_verb => Command::DivRegNum(lreg, num),
            _ => Command::CmpRegNum(lreg, num),
        }
    }

    /// The command that `verb` forms with the registers `lreg` and `rreg`.
    pub fn new_regreg(verb: Rule, lreg: RegIndex, rreg: RegIndex) -> (command: Command)
        requires
            binary_form(verb, lreg, Source::Reg(rreg)) is Some,
        ensures
            Some(command@) == binary_form(verb, lreg, Source::Reg(rreg)),
    {
        match verb {
            Rule::mov_verb => Command::MovRegReg(lreg, rreg),
            Rule::add_verb => Command::AddRegReg(lreg, rreg),
            Rule::sub_verb => Command::SubRegReg(lreg, rreg),
            Rule::mul_verb => Command::MulRegReg(lreg, rreg),
            Rule::div_verb => Command::DivRegReg(lreg, rreg),
            _ => Command::CmpRegReg(lreg, rreg),
        }
    }

    /// The command that `verb` forms with the register `lreg` and the label `label`.
    pub fn new_regip(verb: Rule, lreg: RegIndex, label: Label) -> (command: Command)
        requires
            regip_form(verb, lreg, label@) is Some,
        ensures
            Some(command@) == regip_form(verb, lreg, label@),
    {
        Command::Loop(lreg, label)
    }

    /// Whether every register that the command names has an index below `count`.
    pub fn registers_below(&self, count: usize) -> (below: bool)
        ensures
            below == self@.regs_below(count as int),
    {
        match self {
            Command::MovRegReg(l, r)
            | Command::AddRegReg(l, r)
            | Command::SubRegReg(l, r)
            | Command::MulRegReg(l, r)
            | Command::DivRegReg(l, r)
            | Command::CmpRegReg(l, r) => *l < count && *r < count,
            Command::MovRegNum(l, _)
            | Command::AddRegNum(l, _)
            | Command::SubRegNum(l, _)
            | Command::MulRegNum(l, _)
            | Command::DivRegNum(l, _)
            | Command::CmpRegNum(l, _) => *l < count,
            Command::Inc(reg)
            | Command::Dec(reg)
            | Command::PrintReg(reg)
            | Command::PrintlnReg(reg)
            | Command::ReadReg(reg)
            | Command::PushReg(reg)
            | Command::PopReg(reg) => *reg < count,
            Command::Loop(reg, _) => *reg < count,
            _ => true,
        }
    }
}

} // verus!
