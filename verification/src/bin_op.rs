//! The four arithmetic operators.

use vstd::prelude::*;

verus! {

/// An arithmetic operator of the machine.
#[derive(Debug, Clone, Copy, PartialEq, Eq, Structural)]
#[allow(clippy::upper_case_acronyms)]
pub enum BinOpKind {
    ADD,
    SUB,
    MUL,
    DIV,
}

impl BinOpKind {
    /// The operator as it is written in source text.
    pub open spec fn spec_symbol(self) -> Seq<char> {
        match self {
            BinOpKind::ADD => "+"@,
            BinOpKind::SUB => "-"@,
            BinOpKind::MUL => "*"@,
            BinOpKind::DIV => "/"@,
        }
    }

    /// The operator as it is written in source text.
    pub fn symbol(&self) -> (r: String)
        ensures
            r@ == self.spec_symbol(),
    {
        match self {
            BinOpKind::ADD => String::from_str("+"),
            BinOpKind::SUB => String::from_str("-"),
            BinOpKind::MUL => String::from_str("*"),
            BinOpKind::DIV => String::from_str("/"),
        }
    }
}

} // verus!
