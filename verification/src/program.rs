//! The resolved program: instructions, register names and label addresses.

use vstd::prelude::*;
use crate::command::{Command, Instruction};
use crate::text::str_eq;
use crate::types::{IP, Label, RegIndex};

verus! {

/// A program as a mathematical value.
pub struct ProgramView {
    /// The instructions, in source order.
    pub commands: Seq<Instruction>,
    /// The register names; a register's index is the position of its name.
    pub reg_names: Seq<Seq<char>>,
    /// The address that each declared label stands for.
    pub labels: Map<Seq<char>, IP>,
}

impl ProgramView {
    /// No instruction, no register, no label.
    pub open spec fn empty() -> ProgramView {
        ProgramView { commands: Seq::empty(), reg_names: Seq::empty(), labels: Map::empty() }
    }

    /// Every address and every register index is a machine word, no
    /// register name occurs twice, and every register that an instruction
    /// names is one of the program's registers.
    pub open spec fn wf(self) -> bool {
        &&& self.commands.len() <= usize::MAX
        &&& self.reg_names.len() <= usize::MAX
        &&& distinct(self.reg_names)
        &&& forall|i: int|
            0 <= i < self.commands.len() ==> (#[trigger] self.commands[i]).regs_below(
                self.reg_names.len() as int,
            )
    }
}

/// Whether no name occurs twice in `names`.
pub open spec fn distinct(names: Seq<Seq<char>>) -> bool {
    forall|i: int, j: int| 0 <= i < j < names.len() ==> names[i] != names[j]
}

/// The register table after `name` has been mentioned: unchanged if the name
/// is known, else longer by that name.
pub open spec fn intern(names: Seq<Seq<char>>, name: Seq<char>) -> Seq<Seq<char>> {
    if names.contains(name) {
        names
    } else {
        names.push(name)
    }
}

/// The table that a list of bindings denotes: a later binding of a name
/// replaces an earlier one.
pub open spec fn bindings(entries: Seq<(Seq<char>, IP)>) -> Map<Seq<char>, IP>
    decreases entries.len(),
{
    if entries.len() == 0 {
        Map::empty()
    } else {
        bindings(entries.drop_last()).insert(entries.last().0, entries.last().1)
    }
}

/// A list of bindings with each label taken as its characters.
pub open spec fn label_entries(entries: Seq<(Label, IP)>) -> Seq<(Seq<char>, IP)> {
    entries.map_values(|e: (Label, IP)| (e.0@, e.1))
}

/// After a name has joined a table without repetitions, the table still
/// has none, the names that were known keep their indices, and the name
/// has an index.
pub proof fn lemma_intern(names: Seq<Seq<char>>, name: Seq<char>)
    requires
        distinct(names),
    ensures
        distinct(intern(names, name)),
        names.len() <= intern(names, name).len() <= names.len() + 1,
        forall|i: int| 0 <= i < names.len() ==> intern(names, name)[i] == names[i],
        0 <= intern(names, name).index_of(name) < intern(names, name).len(),
        intern(names, name)[intern(names, name).index_of(name)] == name,
{
    let table = intern(names, name);
    if !names.contains(name) {
        assert(table[names.len() as int] == name);
    }
    assert(table.contains(name));
}

/// The table grows by one binding when the list does.
pub proof fn lemma_bindings_push(entries: Seq<(Seq<char>, IP)>, name: Seq<char>, ip: IP)
    ensures
        bindings(entries.push((name, ip))) == bindings(entries).insert(name, ip),
{
    assert(entries.push((name, ip)).drop_last() =~= entries);
}

/// The resolved, executable form of a source text.
#[derive(Debug)]
pub struct Program {
    commands: Vec<Command>,
    reg_names: Vec<String>,
    labels: Vec<(Label, IP)>,
}

impl View for Program {
    type V = ProgramView;

    closed spec fn view(&self) -> ProgramView {
        ProgramView {
            commands: self.commands@.map_values(|c: Command| c@),
            reg_names: self.reg_names@.map_values(|s: String| s@),
            labels: bindings(label_entries(self.labels@)),
        }
    }
}

impl Default for Program {
    /// The empty program.
    fn default() -> (program: Program)
        ensures
            program@ == ProgramView::empty(),
            program.wf(),
    {
        let program = Program { commands: Vec::new(), reg_names: Vec::new(), labels: Vec::new() };
        assert(program@.commands =~= Seq::empty());
        assert(program@.reg_names =~= Seq::empty());
        assert(label_entries(program.labels@) =~= Seq::empty());
        program
    }
}

impl Program {
    /// The validity of a program value: that of its view.
    pub open spec fn wf(&self) -> bool {
        self@.wf()
    }

    /// The index of the register called `name`, which joins the table if it is new.
    pub fn get_or_create_reg(&mut self, name: &str) -> (index: RegIndex)
        requires
            old(self).wf(),
        ensures
            final(self)@.commands == old(self)@.commands,
            final(self)@.labels == old(self)@.labels,
            final(self)@.reg_names == intern(old(self)@.reg_names, name@),
            final(self).wf(),
            index < final(self)@.reg_names.len(),
            final(self)@.reg_names[index as int] == name@,
            index == final(self)@.reg_names.index_of(name@),
    {
        let mut i: usize = 0;
        while i < self.reg_names.len()
            invariant
                *self == *old(self),
                self@.wf(),
                i <= self.reg_names.len(),
                forall|k: int| 0 <= k < i ==> self@.reg_names[k] != name@,
            decreases self.reg_names.len() - i,
        {
            if str_eq(self.reg_names[i].as_str(), name) {
                assert(self@.reg_names[i as int] == name@);
                assert(self@.reg_names.contains(name@));
                let ghost j = self@.reg_names.index_of(name@);
                assert(j == i);
                return i;
            }
            i += 1;
        }
        assert(!self@.reg_names.contains(name@));
        let ghost before = self@;
        self.reg_names.push(name.to_owned());
        assert(self@.reg_names =~= before.reg_names.push(name@));
        assert(self@.commands == before.commands);
        assert(self@.labels == before.labels);
        let index = self.reg_names.len() - 1;
        assert(self@.reg_names[index as int] == name@);
        assert(self@.reg_names.contains(name@));
        let ghost j = self@.reg_names.index_of(name@);
        assert(j == index);
        index
    }

    /// The number of registers.
    pub fn get_reg_count(&self) -> (count: usize)
        ensures
            count == self@.reg_names.len(),
    {
        self.reg_names.len()
    }

    /// Appends `command` to the instruction sequence.
    pub fn append_command(&mut self, command: Command)
        requires
            old(self).wf(),
            command@.regs_below(old(self)@.reg_names.len() as int),
        ensures
            final(self).wf(),
            final(self)@.commands == old(self)@.commands.push(command@),
            final(self)@.reg_names == old(self)@.reg_names,
            final(self)@.labels == old(self)@.labels,
    {
        let ghost before = self@;
        self.commands.push(command);
        assert(self@.commands =~= before.commands.push(command@));
        assert(self@.commands.len() == self.commands.len());
    }

    /// The number of instructions.
    pub fn get_command_count(&self) -> (count: usize)
        ensures
            count == self@.commands.len(),
    {
        self.commands.len()
    }

    /// The instruction at address `ip`, if the program has one there.
    #[inline]
    pub fn get_command(&self, ip: IP) -> (command: Option<&Command>)
        ensures
            match command {
                Some(c) => ip < self@.commands.len() && c@ == self@.commands[ip as int],
                None => ip >= self@.commands.len(),
            },
    {
        if ip < self.commands.len() {
            Some(&self.commands[ip])
        } else {
            None
        }
    }

    /// Replaces the label table by the one that `labels` denotes; where a
    /// label is bound more than once, its last binding counts.
    pub fn set_labels(&mut self, labels: Vec<(Label, IP)>)
        requires
            old(self).wf(),
        ensures
            final(self).wf(),
            final(self)@.labels == bindings(label_entries(labels@)),
            final(self)@.commands == old(self)@.commands,
            final(self)@.reg_names == old(self)@.reg_names,
    {
        let ghost before = self@;
        self.labels = labels;
        assert(self@.commands == before.commands);
        assert(self@.reg_names == before.reg_names);
    }

    /// Binds `label` to the address `ip`, in place of any earlier binding.
    pub fn set_label(&mut self, label: Label, ip: IP)
        requires
            old(self).wf(),
        ensures
            final(self).wf(),
            final(self)@.labels == old(self)@.labels.insert(label@, ip),
            final(self)@.commands == old(self)@.commands,
            final(self)@.reg_names == old(self)@.reg_names,
    {
        proof {
            lemma_bindings_push(label_entries(self.labels@), label@, ip);
        }
        let ghost before = self@;
        let ghost entries = self.labels@;
        self.labels.push((label, ip));
        assert(label_entries(self.labels@) =~= label_entries(entries).push((label@, ip)));
        assert(self@.commands == before.commands);
        assert(self@.reg_names == before.reg_names);
    }

    /// The address that `label` is bound to, if it is bound.
    pub fn get_label_ip(&self, label: &str) -> (ip: Option<IP>)
        ensures
            self@.labels.contains_key(label@) ==> ip == Some(self@.labels[label@]),
            !self@.labels.contains_key(label@) ==> ip is None,
    {
        let ghost entries = label_entries(self.labels@);
        let mut i: usize = self.labels.len();
        assert(entries.take(i as int) =~= entries);
        while i > 0
            invariant
                i <= self.labels.len(),
                entries == label_entries(self.labels@),
                bindings(entries).contains_key(label@) == bindings(
                    entries.take(i as int),
                ).contains_key(label@),
                bindings(entries).contains_key(label@) ==> bindings(entries)[label@] == bindings(
                    entries.take(i as int),
                )[label@],
            decreases i,
        {
            i -= 1;
            proof {
                let shorter = entries.take(i as int);
                assert(entries.take(i + 1).drop_last() =~= shorter);
                assert(entries.take(i + 1).last() == entries[i as int]);
                assert(entries[i as int] == (self.labels@[i as int].0@, self.labels@[i as int].1));
            }
            if str_eq(self.labels[i].0.as_str(), label) {
                return Some(self.labels[i].1);
            }
        }
        None
    }
}

} // verus!
