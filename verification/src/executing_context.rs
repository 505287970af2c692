//! The execution engine: the runtime state of one run and the
//! fetch-decode-execute step over a program.
//!
//! A fault stops a run at once and leaves the state as the faulting
//! instruction found it. A label is looked up when a jump to it is taken,
//! so a program may name labels that it never declares. The operand stack
//! holds pushed values and return addresses alike, and has no ceiling.
//! The engine does no input or output of its own: a step is handed the
//! value that it may read and hands out the text that it wrote.

use vstd::prelude::*;
use vstd::string::*;
use crate::command::{BinaryOp, Command, Instruction, Source, UnaryOp};
use crate::machine::{
    address_of, effect, halted, run, step, target, wants_input, written, Advance, Machine, Stop,
    Trace,
};
use crate::number::format_i32;
use crate::program::{Program, ProgramView};
use crate::text::push_char;
use crate::types::{Fault, FaultKind, Flags, Label, RegIndex, IP};

verus! {

/// The runtime state of one run of a program.
#[derive(Debug)]
pub struct ExecutingContext<'a> {
    program: &'a Program,
    ip: IP,
    stack: Vec<i32>,
    reg_values: Vec<i32>,
    flags: Flags,
}

/// What a finished call of `execute` reports.
#[derive(Debug)]
pub struct Execution {
    /// All the text that the run wrote, in order.
    pub output: String,
    /// The number of input values that the run read.
    pub consumed: usize,
    /// Why the run ended.
    pub stop: Stop,
}

impl<'a> View for ExecutingContext<'a> {
    type V = Machine;

    closed spec fn view(&self) -> Machine {
        Machine {
            ip: self.ip as int,
            stack: self.stack@,
            regs: self.reg_values@,
            flags: self.flags,
        }
    }
}

/// The text that a step handed out, as characters.
pub open spec fn text_of(output: Option<String>) -> Option<Seq<char>> {
    match output {
        Some(text) => Some(text@),
        None => None,
    }
}

/// How a function that leaves the instruction pointer to its caller matches
/// an effect: it returns the next address and has made every other change,
/// or it returns the fault and has changed nothing.
pub open spec fn pending(
    before: Machine,
    after: Machine,
    next: Result<IP, FaultKind>,
    expected: Result<Advance, FaultKind>,
) -> bool {
    match expected {
        Ok(advance) => next == Ok::<IP, FaultKind>(advance.machine.ip as usize)
            && advance.machine.ip <= usize::MAX && after == advance.machine.at(before.ip),
        Err(kind) => next == Err::<IP, FaultKind>(kind) && after == before,
    }
}

/// Writing and reading add up over the parts of a run.
pub proof fn lemma_trace_after(trace: Trace, o1: Seq<char>, c1: nat, o2: Seq<char>, c2: nat)
    ensures
        trace.after(o2, c2).after(o1, c1) == trace.after(o1 + o2, c1 + c2),
{
    assert(o1 + (o2 + trace.output) =~= (o1 + o2) + trace.output);
}

impl<'a> ExecutingContext<'a> {
    /// The program that the context runs.
    pub closed spec fn program(&self) -> ProgramView {
        self.program@
    }

    /// The validity of a context: its program is well formed and the state fits it.
    pub open spec fn wf(&self) -> bool {
        self.program().wf() && self@.fits(self.program())
    }

    /// A fresh state for a run of `prg`.
    pub fn new(prg: &'a Program) -> (context: ExecutingContext<'a>)
        requires
            prg.wf(),
        ensures
            context.wf(),
            context.program() == prg@,
            context@ == Machine::initial(prg@.reg_names.len()),
    {
        let context = ExecutingContext {
            program: prg,
            ip: 0,
            stack: Vec::with_capacity(256),
            reg_values: vec![0i32; prg.get_reg_count()],
            flags: Flags { is_sign: false, is_zero: false },
        };
        assert(context@.regs =~= Machine::initial(prg@.reg_names.len()).regs);
        assert(context@.stack =~= Seq::empty());
        context
    }

    /// The value of register `reg`.
    #[inline]
    pub fn get_reg_value(&self, reg: &RegIndex) -> (value: i32)
        requires
            *reg < self@.regs.len(),
        ensures
            value == self@.regs[*reg as int],
    {
        self.reg_values[*reg]
    }

    /// Stores `value` in register `reg`.
    #[inline]
    pub fn set_reg_value(&mut self, reg: &RegIndex, value: i32)
        requires
            *reg < old(self)@.regs.len(),
        ensures
            final(self)@ == old(self)@.with_reg(*reg as int, value),
            final(self).program() == old(self).program(),
    {
        self.reg_values.set(*reg, value);
    }

    /// The address of the next instruction.
    pub fn get_ip(&self) -> (ip: IP)
        ensures
            ip == self@.ip,
    {
        self.ip
    }

    /// The comparison flags.
    pub fn get_flags(&self) -> (flags: Flags)
        ensures
            flags == self@.flags,
    {
        self.flags
    }

    /// The operand stack, its top last.
    pub fn get_stack(&self) -> (stack: &Vec<i32>)
        ensures
            stack@ == self@.stack,
    {
        &self.stack
    }

    /// Whether the instruction pointer has left the program.
    pub fn is_halted(&self) -> (done: bool)
        ensures
            done == halted(self.program(), self@),
    {
        self.ip >= self.program.get_command_count()
    }

    /// Whether the next instruction reads an input value.
    pub fn needs_input(&self) -> (reads: bool)
        ensures
            reads == wants_input(self.program(), self@),
    {
        match self.program.get_command(self.ip) {
            Some(Command::ReadReg(_)) => true,
            _ => false,
        }
    }

    /// Runs the program from its first instruction for at most `max_steps`
    /// steps. Registers and stack start as they are. Each instruction that
    /// reads takes the next value of `input`.
    pub fn execute(&mut self, input: &Vec<i32>, max_steps: usize) -> (done: Execution)
        requires
            old(self).wf(),
        ensures
            final(self).wf(),
            final(self).program() == old(self).program(),
            ({
                let trace = run(old(self).program(), old(self)@.at(0), input@, max_steps as nat);
                &&& final(self)@ == trace.machine
                &&& done.output@ == trace.output
                &&& done.consumed == trace.consumed
                &&& done.stop == trace.stop
            }),
    {
        let end_of_program = self.program.get_command_count();
        self.ip = 0;
        let mut output = String::new();
        let mut consumed: usize = 0;
        let mut steps: usize = 0;
        let ghost program = self.program();
        let ghost start = self@;
        assert(input@.subrange(0, input@.len() as int) =~= input@);
        assert(run(program, start, input@, max_steps as nat).after(Seq::empty(), 0) == run(
            program,
            start,
            input@,
            max_steps as nat,
        )) by {
            let t = run(program, start, input@, max_steps as nat);
            assert(Seq::<char>::empty() + t.output =~= t.output);
        }
        while self.ip < end_of_program && steps < max_steps
            invariant
                self.wf(),
                self.program() == program,
                program == old(self).program(),
                start == old(self)@.at(0),
                end_of_program == program.commands.len(),
                consumed <= input.len(),
                steps <= max_steps,
                run(program, start, input@, max_steps as nat) == run(
                    program,
                    self@,
                    input@.subrange(consumed as int, input@.len() as int),
                    (max_steps - steps) as nat,
                ).after(output@, consumed as nat),
            decreases max_steps - steps,
        {
            let reads = self.needs_input() && consumed < input.len();
            let given = if reads {
                Some(input[consumed])
            } else {
                None
            };
            let ghost before = self@;
            let ghost rest = input@.subrange(consumed as int, input@.len() as int);
            let ghost written_before = output@;
            match self.execute_step(given) {
                Err(fault) => {
                    proof {
                        assert(written_before + Seq::<char>::empty() =~= written_before);
                    }
                    return Execution { output, consumed, stop: Stop::Faulted(fault) };
                },
                Ok(text) => {
                    proof {
                        let advance = step(program, before, given)->Ok_0;
                        let k: nat = if reads {
                            1
                        } else {
                            0
                        };
                        let later = if reads {
                            rest.subrange(1, rest.len() as int)
                        } else {
                            rest
                        };
                        assert(later =~= input@.subrange(consumed + k, input@.len() as int));
                        lemma_trace_after(
                            run(program, self@, later, (max_steps - steps - 1) as nat),
                            written_before,
                            consumed as nat,
                            written(advance.output),
                            k,
                        );
                    }
                    match text {
                        Some(t) => {
                            output.append(t.as_str());
                        },
                        None => {
                            assert(output@ + Seq::<char>::empty() =~= output@);
                        },
                    }
                    if reads {
                        consumed += 1;
                    }
                    steps += 1;
                },
            }
        }
        proof {
            assert(output@ + Seq::<char>::empty() =~= output@);
        }
        let stop = if self.ip < end_of_program {
            Stop::OutOfSteps
        } else {
            Stop::Halted
        };
        Execution { output, consumed, stop }
    }

    /// Executes the instruction at the instruction pointer. `input` is the
    /// value that a reading instruction stores; other instructions ignore
    /// it. Returns the text that the instruction wrote, if it wrote any. On
    /// a fault the state is as it was.
    pub fn execute_step(&mut self, input: Option<i32>) -> (result: Result<Option<String>, Fault>)
        requires
            old(self).wf(),
        ensures
            final(self).wf(),
            final(self).program() == old(self).program(),
            match step(old(self).program(), old(self)@, input) {
                Ok(advance) => result is Ok && text_of(result->Ok_0) == advance.output
                    && final(self)@ == advance.machine,
                Err(fault) => result == Err::<Option<String>, Fault>(fault) && final(self)@ == old(
                    self,
                )@,
            },
    {
        let program = self.program;
        let at = self.ip;
        match program.get_command(at) {
            None => Ok(None),
            Some(command) => {
                let mut output: Option<String> = None;
                let next: Result<IP, FaultKind> = match command {
                    Command::MovRegReg(lhs, rhs) => self.execute_regreg_command(
                        lhs,
                        rhs,
                        BinaryOp::Mov,
                    ),
                    Command::AddRegReg(lhs, rhs) => self.execute_regreg_command(
                        lhs,
                        rhs,
                        BinaryOp::Add,
                    ),
                    Command::SubRegReg(lhs, rhs) => self.execute_regreg_command(
                        lhs,
                        rhs,
                        BinaryOp::Sub,
                    ),
                    Command::MulRegReg(lhs, rhs) => self.execute_regreg_command(
                        lhs,
                        rhs,
                        BinaryOp::Mul,
                    ),
                    Command::DivRegReg(lhs, rhs) => self.execute_regreg_command(
                        lhs,
                        rhs,
                        BinaryOp::Div,
                    ),
                    Command::MovRegNum(lhs, num) => self.execute_regnum_command(
                        lhs,
                        num,
                        BinaryOp::Mov,
                    ),
                    Command::AddRegNum(lhs, num) => self.execute_regnum_command(
                        lhs,
                        num,
                        BinaryOp::Add,
                    ),
                    Command::SubRegNum(lhs, num) => self.execute_regnum_command(
                        lhs,
                        num,
                        BinaryOp::Sub,
                    ),
                    Command::MulRegNum(lhs, num) => self.execute_regnum_command(
                        lhs,
                        num,
                        BinaryOp::Mul,
                    ),
                    Command::DivRegNum(lhs, num) => self.execute_regnum_command(
                        lhs,
                        num,
                        BinaryOp::Div,
                    ),
                    Command::CmpRegReg(lreg, rreg) => {
                        let lval = self.get_reg_value(lreg);
                        let rval = self.get_reg_value(rreg);
                        self.update_flags(lval as i64 - rval as i64);
                        Ok(self.ip + 1)
                    },
                    Command::CmpRegNum(lreg, rnum) => {
                        let lval = self.get_reg_value(lreg);
                        self.update_flags(lval as i64 - *rnum as i64);
                        Ok(self.ip + 1)
                    },
                    Command::Inc(reg) => match UnaryOp::Inc.apply(self.get_reg_value(reg)) {
                        Ok(value) => Ok(self.execute_unary_reg(reg, true, value)),
                        Err(kind) => Err(kind),
                    },
                    Command::Dec(reg) => match UnaryOp::Dec.apply(self.get_reg_value(reg)) {
                        Ok(value) => Ok(self.execute_unary_reg(reg, true, value)),
                        Err(kind) => Err(kind),
                    },
                    Command::PopReg(reg) => match self.stack.pop() {
                        Some(poped_value) => Ok(self.execute_unary_reg(reg, false, poped_value)),
                        None => Err(FaultKind::StackUnderflow),
                    },
                    Command::ReadReg(reg) => match input {
                        Some(value) => Ok(self.execute_unary_reg(reg, false, value)),
                        None => Err(FaultKind::NoInput),
                    },
                    Command::PushReg(reg) => {
                        let lval = self.get_reg_value(reg);
                        self.stack.push(lval);
                        Ok(self.ip + 1)
                    },
                    Command::PushNum(num) => {
                        self.stack.push(*num);
                        Ok(self.ip + 1)
                    },
                    Command::PrintReg(reg) => {
                        let lval = self.get_reg_value(reg);
                        output = Some(format_i32(lval));
                        Ok(self.ip + 1)
                    },
                    Command::PrintStr(text) => {
                        output = Some(text.clone());
                        Ok(self.ip + 1)
                    },
                    Command::PrintlnReg(reg) => {
                        let lval = self.get_reg_value(reg);
                        let mut line = format_i32(lval);
                        push_char(&mut line, '\n');
                        output = Some(line);
                        Ok(self.ip + 1)
                    },
                    Command::PrintlnStr(text) => {
                        let mut line = text.clone();
                        push_char(&mut line, '\n');
                        output = Some(line);
                        Ok(self.ip + 1)
                    },
                    Command::Jmp(label) => self.jump_if(true, label),
                    Command::Je(label) => self.jump_if(self.flags.is_zero, label),
                    Command::Jne(label) => self.jump_if(!self.flags.is_zero, label),
                    Command::Jg(label) => self.jump_if(
                        !self.flags.is_zero && !self.flags.is_sign,
                        label,
                    ),
                    Command::Jge(label) => self.jump_if(
                        self.flags.is_zero || !self.flags.is_sign,
                        label,
                    ),
                    Command::Jl(label) => self.jump_if(
                        !self.flags.is_zero && self.flags.is_sign,
                        label,
                    ),
                    Command::Jle(label) => self.jump_if(
                        self.flags.is_zero || self.flags.is_sign,
                        label,
                    ),
                    Command::Loop(lreg, label) => match UnaryOp::Dec.apply(
                        self.get_reg_value(lreg),
                    ) {
                        Ok(counter) => match self.jump_if(counter > 0, label) {
                            Ok(ip) => {
                                self.set_reg_value(lreg, counter);
                                self.update_flags(counter as i64);
                                Ok(ip)
                            },
                            Err(kind) => Err(kind),
                        },
                        Err(kind) => Err(kind),
                    },
                    Command::Call(label) => if at >= 0x7fff_ffff {
                        Err(FaultKind::Overflow)
                    } else {
                        match program.get_label_ip(label.as_str()) {
                            Some(ip) => {
                                self.stack.push((at + 1) as i32);
                                Ok(ip)
                            },
                            None => Err(FaultKind::UnresolvedLabel),
                        }
                    },
                    Command::Ret => match self.stack.pop() {
                        Some(word) => Ok(address_of(word)),
                        None => Err(FaultKind::StackUnderflow),
                    },
                };
                match next {
                    Ok(ip) => {
                        self.ip = ip;
                        Ok(output)
                    },
                    Err(kind) => Err(Fault { kind, address: at }),
                }
            },
        }
    }

    /// Applies `op` to the registers `lreg` and `rreg`, stores the result in
    /// `lreg` and returns the address of the next instruction.
    fn execute_regreg_command(&mut self, lreg: &RegIndex, rreg: &RegIndex, op: BinaryOp) -> (next: Result<IP, FaultKind>)
        requires
            old(self).wf(),
            !halted(old(self).program(), old(self)@),
            *lreg < old(self)@.regs.len(),
            *rreg < old(self)@.regs.len(),
        ensures
            final(self).program() == old(self).program(),
            pending(
                old(self)@,
                final(self)@,
                next,
                effect(
                    old(self).program().labels,
                    old(self)@,
                    Instruction::Binary(op, *lreg, Source::Reg(*rreg)),
                    None,
                ),
            ),
    {
        let lval = self.get_reg_value(lreg);
        let rval = self.get_reg_value(rreg);
        match op.apply(lval, rval) {
            Ok(res) => {
                self.set_reg_value(lreg, res);
                if op.updates_flags() {
                    self.update_flags(res as i64);
                }
                Ok(self.ip + 1)
            },
            Err(kind) => Err(kind),
        }
    }

    /// Applies `op` to the register `lreg` and the literal `rnum`, stores the
    /// result in `lreg` and returns the address of the next instruction.
    fn execute_regnum_command(&mut self, lreg: &RegIndex, rnum: &i32, op: BinaryOp) -> (next: Result<IP, FaultKind>)
        requires
            old(self).wf(),
            !halted(old(self).program(), old(self)@),
            *lreg < old(self)@.regs.len(),
        ensures
            final(self).program() == old(self).program(),
            pending(
                old(self)@,
                final(self)@,
                next,
                effect(
                    old(self).program().labels,
                    old(self)@,
                    Instruction::Binary(op, *lreg, Source::Num(*rnum)),
                    None,
                ),
            ),
    {
        let lval = self.get_reg_value(lreg);
        match op.apply(lval, *rnum) {
            Ok(res) => {
                self.set_reg_value(lreg, res);
                if op.updates_flags() {
                    self.update_flags(res as i64);
                }
                Ok(self.ip + 1)
            },
            Err(kind) => Err(kind),
        }
    }

    /// Stores `value` in the register `reg`, sets the flags from it if
    /// `update_flags` asks so, and returns the address of the next instruction.
    fn execute_unary_reg(&mut self, reg: &RegIndex, update_flags: bool, value: i32) -> (next: IP)
        requires
            old(self).program().wf(),
            !halted(old(self).program(), old(self)@),
            *reg < old(self)@.regs.len(),
        ensures
            final(self).program() == old(self).program(),
            next == old(self)@.ip + 1,
            final(self)@ == if update_flags {
                old(self)@.with_reg(*reg as int, value).with_flags_of(value as int)
            } else {
                old(self)@.with_reg(*reg as int, value)
            },
    {
        self.set_reg_value(reg, value);
        if update_flags {
            self.update_flags(value as i64)
        }
        self.ip + 1
    }

    /// The address at which execution continues after a jump to `label`
    /// that is taken only if `cond` holds.
    #[inline]
    fn jump_if(&self, cond: bool, label: &Label) -> (next: Result<IP, FaultKind>)
        requires
            self.program().wf(),
            !halted(self.program(), self@),
        ensures
            cond ==> match target(self.program().labels, label@) {
                Ok(address) => next == Ok::<IP, FaultKind>(address as usize),
                Err(kind) => next == Err::<IP, FaultKind>(kind),
            },
            !cond ==> next == Ok::<IP, FaultKind>((self@.ip + 1) as usize),
    {
        if cond {
            match self.program.get_label_ip(label.as_str()) {
                Some(ip) => Ok(ip),
                None => Err(FaultKind::UnresolvedLabel),
            }
        } else {
            Ok(self.ip + 1)
        }
    }

    /// Sets the flags from `value`.
    #[inline]
    fn update_flags(&mut self, value: i64)
        ensures
            final(self)@ == old(self)@.with_flags_of(value as int),
            final(self).program() == old(self).program(),
    {
        self.flags.is_zero = value == 0;
        self.flags.is_sign = value < 0;
    }
}

} // verus!
