//! The semantics of the machine: what each instruction does to the value
//! stack and the globals, and what a run of instructions amounts to.
//!
//! The machine does not compute with floating point. Where an instruction
//! adds, subtracts, multiplies or divides two numbers, or prints a number, it
//! yields an [`ActionView`] and whoever drives the machine does that part.

use vstd::prelude::*;
use crate::bin_op::BinOpKind;
use crate::chunk::{ChunkView, OpCodeKind};
use crate::errors::{RuntimeErrorKindView, RuntimeErrorView};
use crate::number;
use crate::object::{not_supported, object_sum};
use crate::value::{Compare, ValueView};

verus! {

/// The state of a machine: the index of the next instruction, the value
/// stack with its top at the end, and the globals.
pub struct MachineView {
    pub ip: usize,
    pub stack: Seq<ValueView>,
    pub globals: Map<Seq<char>, ValueView>,
}

/// What the machine asks of its driver when it stops.
pub enum ActionView {
    /// Nothing: the machine went past the last instruction.
    Halt,
    /// Write the text and a line feed.
    Print(Seq<char>),
    /// Write the number in decimal and a line feed.
    PrintNumber(u64),
    /// Compute `left op right` as doubles and resume with the result.
    Arithmetic { op: BinOpKind, left: u64, right: u64 },
}

/// What one instruction does.
pub enum Step {
    /// The machine goes on with the next instruction.
    Go(MachineView),
    /// The machine stops for its driver.
    Yield(MachineView, ActionView),
    /// The machine stops with an error.
    Fail(MachineView, RuntimeErrorKindView),
}

impl MachineView {
    /// The state with `v` on top of the stack.
    pub open spec fn push(self, v: ValueView) -> MachineView {
        MachineView { stack: self.stack.push(v), ..self }
    }

    /// The state without the top of the stack.
    pub open spec fn pop(self) -> MachineView {
        MachineView { stack: self.stack.drop_last(), ..self }
    }

    /// The state with `name` bound to `v`.
    pub open spec fn bind(self, name: Seq<char>, v: ValueView) -> MachineView {
        MachineView { globals: self.globals.insert(name, v), ..self }
    }

    /// The state past the instruction at `ip`.
    pub open spec fn advance(self) -> MachineView {
        MachineView { ip: (self.ip + 1) as usize, ..self }
    }
}

/// The name that the constant at `index` holds, or the error of a constant
/// that is no name.
pub open spec fn name_at(chunk: ChunkView, index: int) -> Result<Seq<char>, RuntimeErrorKindView> {
    match chunk.constants[index] {
        ValueView::Identifier(name) => Ok(name),
        other => Err(
            RuntimeErrorKindView::TypeError { expected: "identifier"@, got: other.kind_name() },
        ),
    }
}

/// Negation: the top of the stack, which must be a number, changes sign.
pub open spec fn negate_step(m: MachineView) -> Step {
    if m.stack.len() == 0 {
        Step::Fail(m, RuntimeErrorKindView::MissingValue)
    } else {
        match m.stack.last() {
            ValueView::Float(bits) => Step::Go(m.pop().push(ValueView::Float(number::negated(bits)))),
            other => Step::Fail(
                m,
                RuntimeErrorKindView::OperationNotSupported {
                    op: "-"@,
                    target: "for "@ + other.display().unwrap(),
                },
            ),
        }
    }
}

/// Logical negation: the top of the stack gives way to the opposite of its
/// truth.
pub open spec fn not_step(m: MachineView) -> Step {
    if m.stack.len() == 0 {
        Step::Fail(m, RuntimeErrorKindView::MissingValue)
    } else {
        Step::Go(m.pop().push(ValueView::Boolean(!m.stack.last().truthy())))
    }
}

/// Arithmetic: the right operand is popped, then the left. Two numbers are
/// handed to the driver. Two objects under `+` are added. Every other pair is
/// not supported.
pub open spec fn binary_step(m: MachineView, op: BinOpKind) -> Step {
    if m.stack.len() == 0 {
        Step::Fail(m, RuntimeErrorKindView::MissingValue)
    } else if m.stack.len() == 1 {
        Step::Fail(m.pop(), RuntimeErrorKindView::MissingValue)
    } else {
        let b = m.stack[m.stack.len() - 1];
        let a = m.stack[m.stack.len() - 2];
        let rest = m.pop().pop();
        match (a, b) {
            (ValueView::Float(x), ValueView::Float(y)) => Step::Yield(
                rest,
                ActionView::Arithmetic { op, left: x, right: y },
            ),
            (ValueView::Object(x), ValueView::Object(y)) => {
                if op == BinOpKind::ADD {
                    match object_sum(x, y) {
                        Ok(sum) => Step::Go(rest.push(ValueView::Object(sum))),
                        Err(e) => Step::Fail(rest, e),
                    }
                } else {
                    Step::Fail(rest, not_supported(op.spec_symbol(), x.kind, y.kind))
                }
            },
            _ => Step::Fail(rest, not_supported(op.spec_symbol(), a.kind_name(), b.kind_name())),
        }
    }
}

/// Equality: both operands give way to whether they are equal.
pub open spec fn equal_step(m: MachineView) -> Step {
    if m.stack.len() == 0 {
        Step::Fail(m, RuntimeErrorKindView::MissingValue)
    } else if m.stack.len() == 1 {
        Step::Fail(m.pop(), RuntimeErrorKindView::MissingValue)
    } else {
        let b = m.stack[m.stack.len() - 1];
        let a = m.stack[m.stack.len() - 2];
        Step::Go(m.pop().pop().push(ValueView::Boolean(a.equals(b))))
    }
}

/// Ordering: both operands give way to whether the left stands to the right
/// as `expected` says.
pub open spec fn order_step(m: MachineView, expected: Compare) -> Step {
    if m.stack.len() == 0 {
        Step::Fail(m, RuntimeErrorKindView::MissingValue)
    } else if m.stack.len() == 1 {
        Step::Fail(m.pop(), RuntimeErrorKindView::MissingValue)
    } else {
        let b = m.stack[m.stack.len() - 1];
        let a = m.stack[m.stack.len() - 2];
        Step::Go(m.pop().pop().push(ValueView::Boolean(a.compare(b) == expected)))
    }
}

/// Printing: the top of the stack is popped and handed to the driver.
pub open spec fn print_step(m: MachineView) -> Step {
    if m.stack.len() == 0 {
        Step::Fail(m, RuntimeErrorKindView::MissingValue)
    } else {
        match m.stack.last() {
            ValueView::Float(bits) => Step::Yield(m.pop(), ActionView::PrintNumber(bits)),
            other => Step::Yield(m.pop(), ActionView::Print(other.display().unwrap())),
        }
    }
}

/// Discarding the top of the stack.
pub open spec fn pop_step(m: MachineView) -> Step {
    if m.stack.len() == 0 {
        Step::Fail(m, RuntimeErrorKindView::MissingValue)
    } else {
        Step::Go(m.pop())
    }
}

/// Defining a global: the name must be free; the top of the stack is bound
/// to it and popped.
pub open spec fn define_step(chunk: ChunkView, m: MachineView, index: int) -> Step {
    match name_at(chunk, index) {
        Err(e) => Step::Fail(m, e),
        Ok(name) => {
            if m.globals.contains_key(name) {
                Step::Fail(m, RuntimeErrorKindView::AlreadyDefinedVariable { name })
            } else if m.stack.len() == 0 {
                Step::Fail(m, RuntimeErrorKindView::MissingValue)
            } else {
                Step::Go(m.bind(name, m.stack.last()).pop())
            }
        },
    }
}

/// Reading a global: its value is pushed.
pub open spec fn read_global_step(chunk: ChunkView, m: MachineView, index: int) -> Step {
    match name_at(chunk, index) {
        Err(e) => Step::Fail(m, e),
        Ok(name) => {
            if m.globals.contains_key(name) {
                Step::Go(m.push(m.globals[name]))
            } else {
                Step::Fail(m, RuntimeErrorKindView::UndefinedVariable { name })
            }
        },
    }
}

/// Assigning a global: the name must be bound; the top of the stack is bound
/// to it and stays on the stack.
pub open spec fn set_global_step(chunk: ChunkView, m: MachineView, index: int) -> Step {
    match name_at(chunk, index) {
        Err(e) => Step::Fail(m, e),
        Ok(name) => {
            if !m.globals.contains_key(name) {
                Step::Fail(m, RuntimeErrorKindView::UndefinedVariable { name })
            } else if m.stack.len() == 0 {
                Step::Fail(m, RuntimeErrorKindView::MissingValue)
            } else {
                Step::Go(m.bind(name, m.stack.last()))
            }
        },
    }
}

/// Reading a local: the value in its slot is pushed.
pub open spec fn read_local_step(m: MachineView, slot: int) -> Step {
    if slot < m.stack.len() {
        Step::Go(m.push(m.stack[slot]))
    } else {
        Step::Fail(m, RuntimeErrorKindView::MissingValue)
    }
}

/// Assigning a local: the top of the stack is written to its slot and stays
/// on the stack.
pub open spec fn set_local_step(m: MachineView, slot: int) -> Step {
    if slot < m.stack.len() {
        Step::Go(MachineView { stack: m.stack.update(slot, m.stack.last()), ..m })
    } else {
        Step::Fail(m, RuntimeErrorKindView::MissingValue)
    }
}

/// What the instruction `kind` does to a machine whose `ip` is already past
/// it.
pub open spec fn dispatch(chunk: ChunkView, m: MachineView, kind: OpCodeKind) -> Step {
    match kind {
        OpCodeKind::Const { const_idx } => Step::Go(m.push(chunk.constants[const_idx as int])),
        OpCodeKind::Negate => negate_step(m),
        OpCodeKind::Add => binary_step(m, BinOpKind::ADD),
        OpCodeKind::Sub => binary_step(m, BinOpKind::SUB),
        OpCodeKind::Mul => binary_step(m, BinOpKind::MUL),
        OpCodeKind::Div => binary_step(m, BinOpKind::DIV),
        OpCodeKind::Null => Step::Go(m.push(ValueView::Null)),
        OpCodeKind::True => Step::Go(m.push(ValueView::Boolean(true))),
        OpCodeKind::False => Step::Go(m.push(ValueView::Boolean(false))),
        OpCodeKind::Not => not_step(m),
        OpCodeKind::Eq => equal_step(m),
        OpCodeKind::Gt => order_step(m, Compare::Greater),
        OpCodeKind::Lt => order_step(m, Compare::Lower),
        OpCodeKind::Print => print_step(m),
        OpCodeKind::Pop => pop_step(m),
        OpCodeKind::DefineGlobal { name_idx } => define_step(chunk, m, name_idx as int),
        OpCodeKind::ReadGlobal { name_idx } => read_global_step(chunk, m, name_idx as int),
        OpCodeKind::SetGlobal { name_idx } => set_global_step(chunk, m, name_idx as int),
        OpCodeKind::ReadLocal { name_idx } => read_local_step(m, name_idx as int),
        OpCodeKind::SetLocal { name_idx } => set_local_step(m, name_idx as int),
    }
}

/// One instruction: the machine steps past it, then does what it says.
pub open spec fn step(chunk: ChunkView, m: MachineView) -> Step
    recommends
        m.ip < chunk.code.len(),
{
    dispatch(chunk, m.advance(), chunk.code[m.ip as int].kind)
}

/// How a stretch of running ends: the state, and the action asked for or
/// the error.
pub struct Stop {
    pub machine: MachineView,
    pub result: Result<ActionView, RuntimeErrorView>,
}

/// Running from `m.ip`: instruction after instruction until one yields or
/// fails, or until the machine is past the last one. An error carries the
/// line of the instruction that failed.
pub open spec fn run(chunk: ChunkView, m: MachineView) -> Stop
    decreases chunk.code.len() - m.ip,
{
    if m.ip >= chunk.code.len() {
        Stop { machine: m, result: Ok(ActionView::Halt) }
    } else {
        match step(chunk, m) {
            Step::Go(next) => {
                if next.ip == m.ip + 1 {
                    run(chunk, next)
                } else {
                    Stop { machine: next, result: Ok(ActionView::Halt) }
                }
            },
            Step::Yield(next, action) => Stop { machine: next, result: Ok(action) },
            Step::Fail(next, kind) => Stop {
                machine: next,
                result: Err(RuntimeErrorView { kind, line: chunk.code[m.ip as int].line }),
            },
        }
    }
}

/// Running on after the driver has answered an arithmetic action with
/// `number`: the number is pushed and the machine runs.
pub open spec fn resume(chunk: ChunkView, m: MachineView, number: u64) -> Stop {
    run(chunk, m.push(ValueView::Float(number)))
}

/// A whole run with a driver: the machine runs, the driver writes what is
/// printed and answers each arithmetic action with the next of `replies`,
/// and the machine goes on, until it halts or fails or the replies run out.
pub open spec fn drive(chunk: ChunkView, m: MachineView, replies: Seq<u64>) -> Stop
    decreases chunk.code.len() - m.ip,
{
    let stop = run(chunk, m);
    if m.ip < stop.machine.ip <= chunk.code.len() {
        match stop.result {
            Ok(ActionView::Print(_)) => drive(chunk, stop.machine, replies),
            Ok(ActionView::PrintNumber(_)) => drive(chunk, stop.machine, replies),
            Ok(ActionView::Arithmetic { .. }) => {
                if replies.len() > 0 {
                    drive(
                        chunk,
                        stop.machine.push(ValueView::Float(replies.first())),
                        replies.drop_first(),
                    )
                } else {
                    stop
                }
            },
            _ => stop,
        }
    } else {
        stop
    }
}

/// Every instruction leaves the machine just past itself.
pub proof fn lemma_step_ip(chunk: ChunkView, m: MachineView)
    requires
        m.ip < chunk.code.len() <= usize::MAX,
    ensures
        match step(chunk, m) {
            Step::Go(next) => next.ip == m.ip + 1,
            Step::Yield(next, _) => next.ip == m.ip + 1,
            Step::Fail(next, _) => next.ip == m.ip + 1,
        },
{
}

} // verus!
