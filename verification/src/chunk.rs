//! Bytecode: instructions with their source lines, and a pool of constants.

use vstd::prelude::*;
use crate::text::{decimal, decimal_string, pad_right, padded};
use crate::value::{Value, ValueView};

verus! {

/// The instructions of the machine. `const_idx` and the `name_idx` of the
/// instructions on globals index the constant pool; the `name_idx` of the
/// instructions on locals is a slot of the value stack.
#[derive(Debug, Clone, Copy, PartialEq, Eq, Structural)]
pub enum OpCodeKind {
    Const { const_idx: usize },
    Negate,
    Add,
    Sub,
    Mul,
    Div,
    Null,
    True,
    False,
    Not,
    Eq,
    Gt,
    Lt,
    Print,
    Pop,
    DefineGlobal { name_idx: usize },
    ReadGlobal { name_idx: usize },
    SetGlobal { name_idx: usize },
    ReadLocal { name_idx: usize },
    SetLocal { name_idx: usize },
}

impl OpCodeKind {
    /// The mnemonic of the instruction.
    pub open spec fn mnemonic(self) -> Seq<char> {
        match self {
            OpCodeKind::Const { .. } => "OP_CONST"@,
            OpCodeKind::Negate => "OP_NEGATE"@,
            OpCodeKind::Add => "OP_ADD"@,
            OpCodeKind::Sub => "OP_SUB"@,
            OpCodeKind::Mul => "OP_MUL"@,
            OpCodeKind::Div => "OP_DIV"@,
            OpCodeKind::Null => "OP_NULL"@,
            OpCodeKind::False => "OP_FALSE"@,
            OpCodeKind::True => "OP_TRUE"@,
            OpCodeKind::Not => "OP_NOT"@,
            OpCodeKind::Eq => "OP_EQ"@,
            OpCodeKind::Gt => "OP_GT"@,
            OpCodeKind::Lt => "OP_LT"@,
            OpCodeKind::Print => "OP_PRINT"@,
            OpCodeKind::Pop => "OP_POP"@,
            OpCodeKind::DefineGlobal { .. } => "OP_DEFINE_GLOBAL"@,
            OpCodeKind::ReadGlobal { .. } => "OP_READ_GLOBAL"@,
            OpCodeKind::SetGlobal { .. } => "OP_SET_GLOBAL"@,
            OpCodeKind::ReadLocal { .. } => "OP_READ_LOCAL"@,
            OpCodeKind::SetLocal { .. } => "OP_SET_LOCAL"@,
        }
    }

    /// The operand of the instruction, if it has one.
    pub open spec fn operand(self) -> Option<usize> {
        match self {
            OpCodeKind::Const { const_idx } => Some(const_idx),
            OpCodeKind::DefineGlobal { name_idx } => Some(name_idx),
            OpCodeKind::ReadGlobal { name_idx } => Some(name_idx),
            OpCodeKind::SetGlobal { name_idx } => Some(name_idx),
            OpCodeKind::ReadLocal { name_idx } => Some(name_idx),
            OpCodeKind::SetLocal { name_idx } => Some(name_idx),
            _ => None,
        }
    }

    /// Whether the operand indexes the constant pool.
    pub open spec fn reads_pool(self) -> bool {
        self is Const || self is DefineGlobal || self is ReadGlobal || self is SetGlobal
    }

    /// By how much the instruction changes the depth of the value stack when
    /// it succeeds.
    pub open spec fn effect(self) -> int {
        match self {
            OpCodeKind::Const { .. } => 1,
            OpCodeKind::Null => 1,
            OpCodeKind::True => 1,
            OpCodeKind::False => 1,
            OpCodeKind::ReadGlobal { .. } => 1,
            OpCodeKind::ReadLocal { .. } => 1,
            OpCodeKind::Negate => 0,
            OpCodeKind::Not => 0,
            OpCodeKind::SetGlobal { .. } => 0,
            OpCodeKind::SetLocal { .. } => 0,
            _ => -1,
        }
    }

    /// The text of the operand: its decimal numeral, or nothing.
    pub open spec fn operand_text(self) -> Seq<char> {
        match self.operand() {
            Some(i) => decimal(i as nat),
            None => Seq::<char>::empty(),
        }
    }

    /// The listing of the instruction: the mnemonic in a column of twelve
    /// characters, a space, and the operand in a column of six.
    pub open spec fn listing(self) -> Seq<char> {
        padded(self.mnemonic(), 12) + " "@ + padded(self.operand_text(), 6)
    }

    fn name(&self) -> (r: String)
        ensures
            r@ == self.mnemonic(),
    {
        match self {
            OpCodeKind::Const { .. } => String::from_str("OP_CONST"),
            OpCodeKind::Negate => String::from_str("OP_NEGATE"),
            OpCodeKind::Add => String::from_str("OP_ADD"),
            OpCodeKind::Sub => String::from_str("OP_SUB"),
            OpCodeKind::Mul => String::from_str("OP_MUL"),
            OpCodeKind::Div => String::from_str("OP_DIV"),
            OpCodeKind::Null => String::from_str("OP_NULL"),
            OpCodeKind::False => String::from_str("OP_FALSE"),
            OpCodeKind::True => String::from_str("OP_TRUE"),
            OpCodeKind::Not => String::from_str("OP_NOT"),
            OpCodeKind::Eq => String::from_str("OP_EQ"),
            OpCodeKind::Gt => String::from_str("OP_GT"),
            OpCodeKind::Lt => String::from_str("OP_LT"),
            OpCodeKind::Print => String::from_str("OP_PRINT"),
            OpCodeKind::Pop => String::from_str("OP_POP"),
            OpCodeKind::DefineGlobal { .. } => String::from_str("OP_DEFINE_GLOBAL"),
            OpCodeKind::ReadGlobal { .. } => String::from_str("OP_READ_GLOBAL"),
            OpCodeKind::SetGlobal { .. } => String::from_str("OP_SET_GLOBAL"),
            OpCodeKind::ReadLocal { .. } => String::from_str("OP_READ_LOCAL"),
            OpCodeKind::SetLocal { .. } => String::from_str("OP_SET_LOCAL"),
        }
    }

    fn args(&self) -> (r: String)
        ensures
            r@ == self.operand_text(),
    {
        match self {
            OpCodeKind::Const { const_idx } => decimal_string(*const_idx),
            OpCodeKind::DefineGlobal { name_idx } => decimal_string(*name_idx),
            OpCodeKind::ReadGlobal { name_idx } => decimal_string(*name_idx),
            OpCodeKind::SetGlobal { name_idx } => decimal_string(*name_idx),
            OpCodeKind::ReadLocal { name_idx } => decimal_string(*name_idx),
            OpCodeKind::SetLocal { name_idx } => decimal_string(*name_idx),
            _ => String::new(),
        }
    }

    /// The listing of the instruction.
    pub fn display(&self) -> (r: String)
        ensures
            r@ == self.listing(),
    {
        let mut s = pad_right(self.name(), 12);
        s.append(" ");
        s.append(pad_right(self.args(), 6).as_str());
        s
    }
}

/// An instruction and the source line that produced it.
#[derive(Debug, Clone, Copy, PartialEq, Eq, Structural)]
pub struct OpCode {
    pub kind: OpCodeKind,
    pub line: usize,
}

impl OpCode {
    pub fn new(kind: OpCodeKind, line: usize) -> (r: OpCode)
        ensures
            r == (OpCode { kind, line }),
    {
        Self { kind, line }
    }

    pub fn line(&self) -> (r: usize)
        ensures
            r == self.line,
    {
        self.line
    }

    pub fn kind(&self) -> (r: &OpCodeKind)
        ensures
            *r == self.kind,
    {
        &self.kind
    }

    /// The listing of the instruction with its line: the kind's listing, a
    /// space, `L` and the line number.
    pub open spec fn listing(self) -> Seq<char> {
        self.kind.listing() + " L"@ + decimal(self.line as nat)
    }

    /// The listing of the instruction with its line.
    pub fn display(&self) -> (r: String)
        ensures
            r@ == self.listing(),
    {
        let mut s = self.kind.display();
        s.append(" L");
        s.append(decimal_string(self.line).as_str());
        s
    }
}

/// The mathematical value of a [`Chunk`].
pub struct ChunkView {
    pub code: Seq<OpCode>,
    pub constants: Seq<ValueView>,
}

impl ChunkView {
    /// Every instruction that reads the constant pool has its index inside
    /// the pool.
    pub open spec fn indices_in_pool(self) -> bool {
        forall|i: int|
            0 <= i < self.code.len() && (#[trigger] self.code[i]).kind.reads_pool()
                ==> self.code[i].kind.operand().unwrap() < self.constants.len()
    }

    /// Every instruction carries a line of the source, which are counted
    /// from 1.
    pub open spec fn lines_positive(self) -> bool {
        forall|i: int| 0 <= i < self.code.len() ==> (#[trigger] self.code[i]).line >= 1
    }
}

/// The sum of the stack effects of a run of instructions.
pub open spec fn net_effect(code: Seq<OpCode>) -> int
    decreases code.len(),
{
    if code.len() == 0 {
        0
    } else {
        net_effect(code.drop_last()) + code.last().kind.effect()
    }
}

/// The listing of the first `n` instructions: one line for each, with its
/// offset, three spaces and the instruction, and a line feed between lines.
pub open spec fn listing(code: Seq<OpCode>, n: int) -> Seq<char>
    decreases n,
{
    if n <= 0 {
        Seq::<char>::empty()
    } else {
        let line = decimal((n - 1) as nat) + "   "@ + code[n - 1].listing();
        if n == 1 {
            line
        } else {
            listing(code, n - 1) + "\n"@ + line
        }
    }
}

/// A sequence of instructions and the constants they refer to. Instructions
/// and constants are only ever added at the end, so an index once given stays
/// good.
pub struct Chunk {
    code: Vec<OpCode>,
    constants: Vec<Value>,
}

impl View for Chunk {
    type V = ChunkView;

    closed spec fn view(&self) -> ChunkView {
        ChunkView { code: self.code@, constants: self.constants.deep_view() }
    }
}

impl Chunk {
    pub fn new() -> (r: Chunk)
        ensures
            r@.code == Seq::<OpCode>::empty(),
            r@.constants == Seq::<ValueView>::empty(),
    {
        let r = Self { code: Vec::new(), constants: Vec::with_capacity(256) };
        assert(r.constants.deep_view() =~= Seq::<ValueView>::empty());
        r
    }

    /// Adds an instruction at the end.
    pub fn push(&mut self, op_code: OpCode)
        ensures
            final(self)@.code == old(self)@.code.push(op_code),
            final(self)@.constants == old(self)@.constants,
    {
        self.code.push(op_code);
    }

    /// Adds a constant at the end of the pool and returns its index.
    pub fn push_const(&mut self, value: Value) -> (r: usize)
        ensures
            r == old(self)@.constants.len(),
            final(self)@.constants == old(self)@.constants.push(value@),
            final(self)@.code == old(self)@.code,
    {
        self.constants.push(value);
        assert(self.constants.deep_view() =~= old(self).constants.deep_view().push(value@));
        self.constants.len() - 1
    }

    pub fn is_empty(&self) -> (r: bool)
        ensures
            r == (self@.code.len() == 0),
    {
        self.code.len() == 0
    }

    /// The number of instructions.
    pub fn len(&self) -> (r: usize)
        ensures
            r == self@.code.len(),
    {
        self.code.len()
    }

    /// Whether every instruction that reads the constant pool has its index
    /// inside the pool: what the machine asks of a chunk.
    pub fn check_indices(&self) -> (r: bool)
        ensures
            r == self@.indices_in_pool(),
    {
        let count = self.constants.len();
        let mut i: usize = 0;
        while i < self.code.len()
            invariant
                i <= self.code.len(),
                count == self@.constants.len(),
                forall|j: int|
                    0 <= j < i && (#[trigger] self@.code[j]).kind.reads_pool()
                        ==> self@.code[j].kind.operand().unwrap() < count,
            decreases self.code.len() - i,
        {
            let inside = match self.code[i].kind {
                OpCodeKind::Const { const_idx } => const_idx < count,
                OpCodeKind::DefineGlobal { name_idx } => name_idx < count,
                OpCodeKind::ReadGlobal { name_idx } => name_idx < count,
                OpCodeKind::SetGlobal { name_idx } => name_idx < count,
                _ => true,
            };
            if !inside {
                assert(self@.code[i as int].kind.reads_pool());
                return false;
            }
            i += 1;
        }
        true
    }

    /// The listing of the chunk's instructions.
    pub fn display(&self) -> (r: String)
        ensures
            r@ == listing(self@.code, self@.code.len() as int),
    {
        let mut out = String::new();
        let mut offset: usize = 0;
        while offset < self.code.len()
            invariant
                offset <= self.code.len(),
                out@ == listing(self.code@, offset as int),
            decreases self.code.len() - offset,
        {
            let ghost before = out@;
            if offset > 0 {
                out.append("\n");
            }
            out.append(decimal_string(offset).as_str());
            out.append("   ");
            out.append(self.code[offset].display().as_str());
            proof {
                let line = decimal(offset as nat) + "   "@ + self.code@[offset as int].listing();
                if offset == 0 {
                    assert(before =~= Seq::<char>::empty());
                    assert(out@ =~= line);
                } else {
                    assert(out@ =~= before + "\n"@ + line);
                }
            }
            offset += 1;
        }
        out
    }

    /// The instruction at `index`, if there is one.
    pub fn get(&self, index: usize) -> (r: Option<&OpCode>)
        ensures
            index < self@.code.len() ==> r == Some(&self@.code[index as int]),
            index >= self@.code.len() ==> r.is_none(),
    {
        if index < self.code.len() {
            Some(&self.code[index])
        } else {
            None
        }
    }

    /// The constant at `index`, if there is one.
    pub fn get_const(&self, index: usize) -> (r: Option<&Value>)
        ensures
            index < self@.constants.len() ==> r.is_some() && r.unwrap()@
                == self@.constants[index as int],
            index >= self@.constants.len() ==> r.is_none(),
    {
        if index < self.constants.len() {
            Some(&self.constants[index])
        } else {
            None
        }
    }
}

} // verus!
