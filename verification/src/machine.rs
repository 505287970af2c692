//! What the instructions mean: the machine state as a mathematical value and
//! the transition that one instruction makes on it.

use vstd::prelude::*;
use crate::command::{BinaryOp, Condition, Instruction, Message, Source, UnaryOp};
use crate::number::decimal;
use crate::program::ProgramView;
use crate::types::{Fault, FaultKind, Flags, IP};

verus! {

/// The runtime state.
pub struct Machine {
    /// The address of the next instruction.
    pub ip: int,
    /// The operand stack; its top is the last element.
    pub stack: Seq<i32>,
    /// The register file.
    pub regs: Seq<i32>,
    /// The comparison flags.
    pub flags: Flags,
}

/// What one instruction leaves behind: the next state, and the text it wrote, if any.
pub struct Advance {
    pub machine: Machine,
    pub output: Option<Seq<char>>,
}

/// Why a run ended.
#[derive(Debug, Copy, Clone, PartialEq, Eq, Structural)]
pub enum Stop {
    /// The instruction pointer left the program.
    Halted,
    /// The step limit was reached first.
    OutOfSteps,
    /// An instruction raised a fault.
    Faulted(Fault),
}

/// A run as a mathematical value: the state it ended in, all the text it
/// wrote, how many input values it read, and why it ended.
pub struct Trace {
    pub machine: Machine,
    pub output: Seq<char>,
    pub consumed: nat,
    pub stop: Stop,
}

/// `v` as a register value, or an overflow if it does not fit.
pub open spec fn fit(v: int) -> Result<i32, FaultKind> {
    if i32::MIN <= v <= i32::MAX {
        Ok(v as i32)
    } else {
        Err(FaultKind::Overflow)
    }
}

/// The quotient of `a` by `b`, rounded toward zero.
pub open spec fn quotient(a: int, b: int) -> int
    recommends
        b != 0,
{
    if a == 0 {
        0
    } else if a > 0 && b > 0 {
        a / b
    } else if a < 0 && b < 0 {
        (-a) / (-b)
    } else if a < 0 {
        -((-a) / b)
    } else {
        -(a / (-b))
    }
}

impl BinaryOp {
    /// The value that the operation leaves in its first operand.
    pub open spec fn eval(self, a: i32, b: i32) -> Result<i32, FaultKind> {
        match self {
            BinaryOp::Mov => Ok(b),
            BinaryOp::Add => fit(a + b),
            BinaryOp::Sub => fit(a - b),
            BinaryOp::Mul => fit(a * b),
            BinaryOp::Div => if b == 0 {
                Err(FaultKind::DivisionByZero)
            } else {
                fit(quotient(a as int, b as int))
            },
        }
    }

    /// Whether the operation sets the flags from its result. A move does not.
    pub open spec fn sets_flags(self) -> bool {
        self != BinaryOp::Mov
    }

    /// Applies the operation to `a` and `b`.
    pub fn apply(self, a: i32, b: i32) -> (result: Result<i32, FaultKind>)
        ensures
            result == self.eval(a, b),
    {
        let value = match self {
            BinaryOp::Mov => Some(b),
            BinaryOp::Add => a.checked_add(b),
            BinaryOp::Sub => a.checked_sub(b),
            BinaryOp::Mul => a.checked_mul(b),
            BinaryOp::Div => {
                if b == 0 {
                    return Err(FaultKind::DivisionByZero);
                }
                a.checked_div(b)
            },
        };
        match value {
            Some(v) => Ok(v),
            None => Err(FaultKind::Overflow),
        }
    }

    /// Whether the operation sets the flags from its result.
    pub fn updates_flags(self) -> (sets: bool)
        ensures
            sets == self.sets_flags(),
    {
        match self {
            BinaryOp::Mov => false,
            _ => true,
        }
    }
}

impl UnaryOp {
    /// The value that the operation leaves in its operand.
    pub open spec fn eval(self, a: i32) -> Result<i32, FaultKind> {
        match self {
            UnaryOp::Inc => fit(a + 1),
            UnaryOp::Dec => fit(a - 1),
        }
    }

    /// Applies the operation to `a`.
    pub fn apply(self, a: i32) -> (result: Result<i32, FaultKind>)
        ensures
            result == self.eval(a),
    {
        let value = match self {
            UnaryOp::Inc => a.checked_add(1),
            UnaryOp::Dec => a.checked_sub(1),
        };
        match value {
            Some(v) => Ok(v),
            None => Err(FaultKind::Overflow),
        }
    }
}

impl Condition {
    /// Whether a jump under this condition is taken when the flags are `flags`.
    pub open spec fn holds(self, flags: Flags) -> bool {
        match self {
            Condition::Always => true,
            Condition::Equal => flags.is_zero,
            Condition::NotEqual => !flags.is_zero,
            Condition::Greater => !flags.is_zero && !flags.is_sign,
            Condition::GreaterOrEqual => flags.is_zero || !flags.is_sign,
            Condition::Less => !flags.is_zero && flags.is_sign,
            Condition::LessOrEqual => flags.is_zero || flags.is_sign,
        }
    }
}

impl Source {
    /// The value of the operand when the registers hold `regs`.
    pub open spec fn value(self, regs: Seq<i32>) -> i32 {
        match self {
            Source::Reg(r) => regs[r as int],
            Source::Num(n) => n,
        }
    }
}

/// The text that a print instruction writes.
pub open spec fn rendered(message: Message, newline: bool, regs: Seq<i32>) -> Seq<char> {
    let body = match message {
        Message::Reg(r) => decimal(regs[r as int] as int),
        Message::Text(text) => text,
    };
    if newline {
        body.push('\n')
    } else {
        body
    }
}

/// The address that `label` stands for, or the fault of a label that was never declared.
pub open spec fn target(labels: Map<Seq<char>, IP>, label: Seq<char>) -> Result<int, FaultKind> {
    if labels.contains_key(label) {
        Ok(labels[label] as int)
    } else {
        Err(FaultKind::UnresolvedLabel)
    }
}

/// The address that a popped stack word stands for. A negative word stands
/// for an address beyond every program, as its two's-complement reading does.
pub open spec fn return_address(word: i32) -> int {
    if word >= 0 {
        word as int
    } else {
        usize::MAX + 1 + word
    }
}

/// The address that the stack word `word` stands for.
pub fn address_of(word: i32) -> (ip: IP)
    ensures
        ip == return_address(word),
{
    if word >= 0 {
        word as usize
    } else {
        usize::MAX - ((-(word + 1)) as usize)
    }
}

impl Machine {
    /// The state in which a fresh run of a program with `reg_count` registers starts.
    pub open spec fn initial(reg_count: nat) -> Machine {
        Machine {
            ip: 0,
            stack: Seq::empty(),
            regs: Seq::new(reg_count, |i: int| 0i32),
            flags: Flags { is_zero: false, is_sign: false },
        }
    }

    /// The same state at the next instruction.
    pub open spec fn next(self) -> Machine {
        Machine { ip: self.ip + 1, ..self }
    }

    /// The same state at the address `ip`.
    pub open spec fn at(self, ip: int) -> Machine {
        Machine { ip, ..self }
    }

    /// The same state with `value` in register `reg`.
    pub open spec fn with_reg(self, reg: int, value: i32) -> Machine {
        Machine { regs: self.regs.update(reg, value), ..self }
    }

    /// The same state with the flags that describe `value`.
    pub open spec fn with_flags_of(self, value: int) -> Machine {
        Machine { flags: Flags::of(value), ..self }
    }

    /// The same state with `value` pushed on the stack.
    pub open spec fn pushed(self, value: i32) -> Machine {
        Machine { stack: self.stack.push(value), ..self }
    }

    /// The same state without the top of the stack.
    pub open spec fn popped(self) -> Machine {
        Machine { stack: self.stack.drop_last(), ..self }
    }

    /// Whether the state fits the program: one register value for each register.
    pub open spec fn fits(self, program: ProgramView) -> bool {
        self.ip >= 0 && self.regs.len() == program.reg_names.len()
    }
}

/// A step that writes nothing.
pub open spec fn silent(machine: Machine) -> Result<Advance, FaultKind> {
    Ok(Advance { machine, output: None })
}

/// What `instruction` does to the state `m`, given the label table and the
/// input value handed to it. On a fault nothing has changed.
pub open spec fn effect(
    labels: Map<Seq<char>, IP>,
    m: Machine,
    instruction: Instruction,
    input: Option<i32>,
) -> Result<Advance, FaultKind> {
    match instruction {
        Instruction::Binary(op, dest, source) => match op.eval(
            m.regs[dest as int],
            source.value(m.regs),
        ) {
            Ok(v) => silent(
                if op.sets_flags() {
                    m.with_reg(dest as int, v).with_flags_of(v as int).next()
                } else {
                    m.with_reg(dest as int, v).next()
                },
            ),
            Err(kind) => Err(kind),
        },
        Instruction::Unary(op, reg) => match op.eval(m.regs[reg as int]) {
            Ok(v) => silent(m.with_reg(reg as int, v).with_flags_of(v as int).next()),
            Err(kind) => Err(kind),
        },
        Instruction::Compare(reg, source) => silent(
            m.with_flags_of(m.regs[reg as int] - source.value(m.regs)).next(),
        ),
        Instruction::Push(source) => silent(m.pushed(source.value(m.regs)).next()),
        Instruction::Pop(reg) => if m.stack.len() == 0 {
            Err(FaultKind::StackUnderflow)
        } else {
            silent(m.with_reg(reg as int, m.stack.last()).popped().next())
        },
        Instruction::Read(reg) => match input {
            Some(v) => silent(m.with_reg(reg as int, v).next()),
            None => Err(FaultKind::NoInput),
        },
        Instruction::Print(message, newline) => Ok(
            Advance { machine: m.next(), output: Some(rendered(message, newline, m.regs)) },
        ),
        Instruction::Jump(cond, label) => if cond.holds(m.flags) {
            match target(labels, label) {
                Ok(address) => silent(m.at(address)),
                Err(kind) => Err(kind),
            }
        } else {
            silent(m.next())
        },
        Instruction::Loop(reg, label) => match fit(m.regs[reg as int] - 1) {
            Ok(v) => if v > 0 {
                match target(labels, label) {
                    Ok(address) => silent(
                        m.with_reg(reg as int, v).with_flags_of(v as int).at(address),
                    ),
                    Err(kind) => Err(kind),
                }
            } else {
                silent(m.with_reg(reg as int, v).with_flags_of(v as int).next())
            },
            Err(kind) => Err(kind),
        },
        Instruction::Call(label) => match fit(m.ip + 1) {
            Ok(back) => match target(labels, label) {
                Ok(address) => silent(m.pushed(back).at(address)),
                Err(kind) => Err(kind),
            },
            Err(kind) => Err(kind),
        },
        Instruction::Ret => if m.stack.len() == 0 {
            Err(FaultKind::StackUnderflow)
        } else {
            silent(m.popped().at(return_address(m.stack.last())))
        },
    }
}

/// Whether the instruction pointer has left the program.
pub open spec fn halted(program: ProgramView, m: Machine) -> bool {
    !(0 <= m.ip < program.commands.len())
}

/// One step of the machine: the effect of the instruction at the instruction
/// pointer. A halted machine stays as it is. A fault carries the address of
/// the instruction that raised it.
pub open spec fn step(program: ProgramView, m: Machine, input: Option<i32>) -> Result<
    Advance,
    Fault,
> {
    if halted(program, m) {
        Ok(Advance { machine: m, output: None })
    } else {
        match effect(program.labels, m, program.commands[m.ip], input) {
            Ok(advance) => Ok(advance),
            Err(kind) => Err(Fault { kind, address: m.ip as usize }),
        }
    }
}

/// Whether the next instruction reads an input value.
pub open spec fn wants_input(program: ProgramView, m: Machine) -> bool {
    !halted(program, m) && program.commands[m.ip] is Read
}

/// The text of a step's output; nothing where it wrote nothing.
pub open spec fn written(output: Option<Seq<char>>) -> Seq<char> {
    match output {
        Some(text) => text,
        None => Seq::empty(),
    }
}

impl Trace {
    /// The run that writes `output` and reads `consumed` values, then goes on as `self`.
    pub open spec fn after(self, output: Seq<char>, consumed: nat) -> Trace {
        Trace {
            machine: self.machine,
            output: output + self.output,
            consumed: consumed + self.consumed,
            stop: self.stop,
        }
    }
}

/// The run of at most `steps` instructions from the state `m`. An instruction
/// that reads takes the first of the input values that are left; where none
/// is left it is handed none.
pub open spec fn run(program: ProgramView, m: Machine, input: Seq<i32>, steps: nat) -> Trace
    decreases steps,
{
    if halted(program, m) {
        Trace { machine: m, output: Seq::empty(), consumed: 0, stop: Stop::Halted }
    } else if steps == 0 {
        Trace { machine: m, output: Seq::empty(), consumed: 0, stop: Stop::OutOfSteps }
    } else {
        let reads = wants_input(program, m) && input.len() > 0;
        let given = if reads {
            Some(input[0])
        } else {
            None
        };
        match step(program, m, given) {
            Ok(advance) => run(
                program,
                advance.machine,
                if reads {
                    input.subrange(1, input.len() as int)
                } else {
                    input
                },
                (steps - 1) as nat,
            ).after(
                written(advance.output),
                if reads {
                    1
                } else {
                    0
                },
            ),
            Err(fault) => Trace {
                machine: m,
                output: Seq::empty(),
                consumed: 0,
                stop: Stop::Faulted(fault),
            },
        }
    }
}

} // verus!
