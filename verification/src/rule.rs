//! The named productions of the source grammar: command shapes and verbs.

use vstd::prelude::*;

verus! {

/// A production of the grammar. The seven `*_command` rules are the shapes a
/// command line can take; the `*_verb` rules are the keywords.
#[allow(non_camel_case_types)]
#[derive(Debug, Copy, Clone, PartialEq, Eq, Structural, Hash)]
pub enum Rule {
    unit_command,
    unary_reg_command,
    unary_regnum_command,
    unary_regstr_command,
    unary_ip_command,
    binary_reg_regnum_command,
    binary_reg_ip_command,
    mov_verb,
    add_verb,
    sub_verb,
    mul_verb,
    div_verb,
    inc_verb,
    dec_verb,
    print_verb,
    println_verb,
    read_verb,
    push_verb,
    pop_verb,
    cmp_verb,
    jmp_verb,
    je_verb,
    jne_verb,
    jg_verb,
    jge_verb,
    jl_verb,
    jle_verb,
    loop_verb,
    call_verb,
    ret_verb,
}

impl Rule {
    /// The shape of the command lines that a verb heads; `None` for a rule that is no verb.
    pub open spec fn shape(self) -> Option<Rule> {
        match self {
            Rule::ret_verb => Some(Rule::unit_command),
            Rule::inc_verb | Rule::dec_verb | Rule::pop_verb | Rule::read_verb => Some(
                Rule::unary_reg_command,
            ),
            Rule::push_verb => Some(Rule::unary_regnum_command),
            Rule::print_verb | Rule::println_verb => Some(Rule::unary_regstr_command),
            Rule::jmp_verb
            | Rule::je_verb
            | Rule::jne_verb
            | Rule::jg_verb
            | Rule::jge_verb
            | Rule::jl_verb
            | Rule::jle_verb
            | Rule::call_verb => Some(Rule::unary_ip_command),
            Rule::mov_verb
            | Rule::add_verb
            | Rule::sub_verb
            | Rule::mul_verb
            | Rule::div_verb
            | Rule::cmp_verb => Some(Rule::binary_reg_regnum_command),
            Rule::loop_verb => Some(Rule::binary_reg_ip_command),
            _ => None,
        }
    }

    /// Whether the rule is one of the keywords.
    pub open spec fn is_verb(self) -> bool {
        self.shape() is Some
    }

    /// The shape of the command lines that this verb heads.
    pub fn command_shape(self) -> (shape: Option<Rule>)
        ensures
            shape == self.shape(),
    {
        match self {
            Rule::ret_verb => Some(Rule::unit_command),
            Rule::inc_verb | Rule::dec_verb | Rule::pop_verb | Rule::read_verb => Some(
                Rule::unary_reg_command,
            ),
            Rule::push_verb => Some(Rule::unary_regnum_command),
            Rule::print_verb | Rule::println_verb => Some(Rule::unary_regstr_command),
            Rule::jmp_verb
            | Rule::je_verb
            | Rule::jne_verb
            | Rule::jg_verb
            | Rule::jge_verb
            | Rule::jl_verb
            | Rule::jle_verb
            | Rule::call_verb => Some(Rule::unary_ip_command),
            Rule::mov_verb
            | Rule::add_verb
            | Rule::sub_verb
            | Rule::mul_verb
            | Rule::div_verb
            | Rule::cmp_verb => Some(Rule::binary_reg_regnum_command),
            Rule::loop_verb => Some(Rule::binary_reg_ip_command),
            _ => None,
        }
    }
}

} // verus!
