//! Laws of the machine: what follows from the meaning of the instructions.

use vstd::prelude::*;
use crate::command::{Condition, Instruction, Source};
use crate::machine::{halted, run, step, wants_input, Advance, Machine};
use crate::program::ProgramView;
use crate::types::{Fault, Flags, RegIndex};

verus! {

/// The result of a step that writes nothing and ends in the state `machine`.
pub open spec fn arrives(machine: Machine) -> Result<Advance, Fault> {
    Ok(Advance { machine, output: None })
}

/// By how much an instruction changes the depth of the stack when control
/// passes through it to its successor.
pub open spec fn depth_change(instruction: Instruction) -> int {
    match instruction {
        Instruction::Push(_) => 1,
        Instruction::Pop(_) => -1,
        _ => 0,
    }
}

/// The sum of the depth changes of `instructions`.
pub open spec fn stack_delta(instructions: Seq<Instruction>) -> int
    decreases instructions.len(),
{
    if instructions.len() == 0 {
        0
    } else {
        depth_change(instructions.first()) + stack_delta(instructions.drop_first())
    }
}

impl Condition {
    /// The relation between two compared values that the condition asks for.
    pub open spec fn relates(self, a: int, b: int) -> bool {
        match self {
            Condition::Always => true,
            Condition::Equal => a == b,
            Condition::NotEqual => a != b,
            Condition::Greater => a > b,
            Condition::GreaterOrEqual => a >= b,
            Condition::Less => a < b,
            Condition::LessOrEqual => a <= b,
        }
    }
}

/// An instruction that does not transfer control and does not fault moves
/// the instruction pointer to its successor. Only a push or a pop changes
/// the stack, and only at its top: a push adds the operand's value, a pop
/// removes one entry.
pub proof fn lemma_step_straight(program: ProgramView, m: Machine, input: Option<i32>)
    requires
        !halted(program, m),
        !program.commands[m.ip].transfers_control(),
        step(program, m, input) is Ok,
    ensures
        step(program, m, input)->Ok_0.machine.ip == m.ip + 1,
        step(program, m, input)->Ok_0.machine.stack == match program.commands[m.ip] {
            Instruction::Push(source) => m.stack.push(source.value(m.regs)),
            Instruction::Pop(_) => m.stack.drop_last(),
            _ => m.stack,
        },
{
}

/// Over a stretch of `n` instructions none of which transfers control, a
/// run of `n` steps that does not fault advances the instruction pointer by
/// exactly `n`. The depth of the stack changes by the pushes less the pops
/// of the stretch, and a stretch without push and pop leaves the stack as
/// it was.
pub proof fn lemma_straight_line(program: ProgramView, m: Machine, input: Seq<i32>, n: nat)
    requires
        0 <= m.ip,
        m.ip + n <= program.commands.len(),
        forall|i: int|
            m.ip <= i < m.ip + n ==> !(#[trigger] program.commands[i]).transfers_control(),
        !(run(program, m, input, n).stop is Faulted),
    ensures
        run(program, m, input, n).machine.ip == m.ip + n,
        run(program, m, input, n).machine.stack.len() == m.stack.len() + stack_delta(
            program.commands.subrange(m.ip, m.ip + n),
        ),
        (forall|i: int| m.ip <= i < m.ip + n ==> depth_change(#[trigger] program.commands[i]) == 0)
            ==> run(program, m, input, n).machine.stack == m.stack,
    decreases n,
{
    let stretch = program.commands.subrange(m.ip, m.ip + n);
    if n > 0 {
        let reads = wants_input(program, m) && input.len() > 0;
        let given = if reads {
            Some(input[0])
        } else {
            None
        };
        let rest = if reads {
            input.subrange(1, input.len() as int)
        } else {
            input
        };
        assert(!program.commands[m.ip].transfers_control());
        let advance = step(program, m, given)->Ok_0;
        lemma_step_straight(program, m, given);
        lemma_straight_line(program, advance.machine, rest, (n - 1) as nat);
        assert(stretch.drop_first() =~= program.commands.subrange(m.ip + 1, m.ip + n));
        assert(stretch.first() == program.commands[m.ip]);
    }
}

/// A push followed by a pop into `reg` leaves the pushed value in `reg` and
/// the stack as it was before the pair.
pub proof fn lemma_push_pop(program: ProgramView, m: Machine, source: Source, reg: RegIndex)
    requires
        0 <= m.ip,
        m.ip + 1 < program.commands.len(),
        program.commands[m.ip] == Instruction::Push(source),
        program.commands[m.ip + 1] == Instruction::Pop(reg),
        reg < m.regs.len(),
    ensures
        step(program, m, None) is Ok,
        step(program, step(program, m, None)->Ok_0.machine, None) is Ok,
        ({
            let after = step(program, step(program, m, None)->Ok_0.machine, None)->Ok_0.machine;
            &&& after.regs[reg as int] == source.value(m.regs)
            &&& after.stack == m.stack
            &&& after.ip == m.ip + 2
        }),
{
    let pushed = step(program, m, None)->Ok_0.machine;
    assert(pushed.stack.drop_last() =~= m.stack);
}

/// A call that does not fault continues at its label. Wherever a `ret` is
/// then executed with the stack as the call left it, control returns to the
/// instruction after the call, and the stack is as it was before the call.
pub proof fn lemma_call_ret(program: ProgramView, m: Machine, label: Seq<char>, end: Machine)
    requires
        !halted(program, m),
        program.commands[m.ip] == Instruction::Call(label),
        step(program, m, None) is Ok,
        !halted(program, end),
        program.commands[end.ip] == Instruction::Ret,
        end.stack == step(program, m, None)->Ok_0.machine.stack,
    ensures
        program.labels.contains_key(label),
        step(program, m, None)->Ok_0.machine.ip == program.labels[label],
        step(program, end, None) is Ok,
        step(program, end, None)->Ok_0.machine.ip == m.ip + 1,
        step(program, end, None)->Ok_0.machine.stack == m.stack,
{
    let called = step(program, m, None)->Ok_0.machine;
    assert(called.stack.drop_last() =~= m.stack);
}

/// The flags that a comparison of `a` with `b` leaves make a condition hold
/// exactly when `a` and `b` stand in the relation that the condition names.
pub proof fn lemma_flags_of_difference(cond: Condition, a: i32, b: i32)
    ensures
        cond.holds(Flags::of(a - b)) <==> cond.relates(a as int, b as int),
{
}

/// After `cmp reg, source`, a conditional jump that finds the flags as the
/// comparison left them is taken exactly when the register's value and the
/// operand's stand in the relation that the jump names: `je` when they are
/// equal, `jl` when the first is less, `jge` when it is not less, and so
/// on. Taken, it continues at its label; not taken, at the next instruction.
pub proof fn lemma_compare_jump(
    program: ProgramView,
    m: Machine,
    reg: RegIndex,
    source: Source,
    later: Machine,
    cond: Condition,
    label: Seq<char>,
)
    requires
        !halted(program, m),
        program.commands[m.ip] == Instruction::Compare(reg, source),
        !halted(program, later),
        program.commands[later.ip] == Instruction::Jump(cond, label),
        later.flags == step(program, m, None)->Ok_0.machine.flags,
    ensures
        step(program, m, None) is Ok,
        cond.holds(later.flags) <==> cond.relates(
            m.regs[reg as int] as int,
            source.value(m.regs) as int,
        ),
        cond.holds(later.flags) && program.labels.contains_key(label) ==> step(
            program,
            later,
            None,
        ) == arrives(later.at(program.labels[label] as int)),
        !cond.holds(later.flags) ==> step(program, later, None) == arrives(later.next()),
{
    lemma_flags_of_difference(cond, m.regs[reg as int], source.value(m.regs));
}

/// `loop reg, label` decrements the register by exactly one. If the
/// register held more than one, execution continues at the label;
/// otherwise it falls through to the next instruction. The smallest
/// register value, which has no predecessor, is left out.
pub proof fn lemma_loop(program: ProgramView, m: Machine, reg: RegIndex, label: Seq<char>)
    requires
        !halted(program, m),
        program.commands[m.ip] == Instruction::Loop(reg, label),
        reg < m.regs.len(),
        m.regs[reg as int] > i32::MIN,
        m.regs[reg as int] > 1 ==> program.labels.contains_key(label),
    ensures
        step(program, m, None) is Ok,
        step(program, m, None)->Ok_0.machine.regs[reg as int] == m.regs[reg as int] - 1,
        m.regs[reg as int] > 1 ==> step(program, m, None)->Ok_0.machine.ip
            == program.labels[label],
        m.regs[reg as int] <= 1 ==> step(program, m, None)->Ok_0.machine.ip == m.ip + 1,
{
}

} // verus!
