//! The stack machine.

use vstd::prelude::*;
use crate::bin_op::BinOpKind;
use crate::chunk::{Chunk, OpCodeKind};
use crate::errors::{RuntimeError, RuntimeErrorKind, RuntimeErrorView};
use crate::machine::{
    binary_step, define_step, equal_step, lemma_step_ip, name_at, negate_step, not_step,
    order_step, print_step, read_global_step, read_local_step, resume, run, set_global_step,
    set_local_step, ActionView, MachineView, Step, Stop,
};
use crate::namespace::NameSpace;
use crate::number;
use crate::object::{unsupported, Object};
use crate::value::{Compare, Value, ValueView};

verus! {

/// What the machine asks of its driver when it stops.
#[derive(Debug)]
pub enum Action {
    /// Nothing: the machine went past the last instruction.
    Halt,
    /// Write the text and a line feed.
    Print(String),
    /// Write the number in decimal and a line feed.
    PrintNumber(u64),
    /// Compute `left op right` as doubles and call
    /// [`VirtualMachine::resume`] with the result.
    Arithmetic { op: BinOpKind, left: u64, right: u64 },
}

impl View for Action {
    type V = ActionView;

    open spec fn view(&self) -> ActionView {
        match self {
            Action::Halt => ActionView::Halt,
            Action::Print(text) => ActionView::Print(text@),
            Action::PrintNumber(bits) => ActionView::PrintNumber(*bits),
            Action::Arithmetic { op, left, right } => ActionView::Arithmetic {
                op: *op,
                left: *left,
                right: *right,
            },
        }
    }
}

/// A machine: an instruction pointer, a value stack and the globals. The
/// bytecode is lent to it for each run, so that the same machine can go on
/// after the chunk has grown.
pub struct VirtualMachine {
    ip: usize,
    value_stack: Vec<Value>,
    globals: NameSpace,
}

impl View for VirtualMachine {
    type V = MachineView;

    closed spec fn view(&self) -> MachineView {
        MachineView {
            ip: self.ip,
            stack: self.value_stack.deep_view(),
            globals: self.globals@,
        }
    }
}

/// What a helper of the machine did, as a step of the semantics.
pub open spec fn step_of(m: MachineView, r: Result<Option<Action>, RuntimeErrorKind>) -> Step {
    match r {
        Ok(None) => Step::Go(m),
        Ok(Some(action)) => Step::Yield(m, action@),
        Err(kind) => Step::Fail(m, kind@),
    }
}

/// How a run ended, as a stop of the semantics.
pub open spec fn stop_of(m: MachineView, r: Result<Action, RuntimeError>) -> Stop {
    Stop {
        machine: m,
        result: match r {
            Ok(action) => Ok(action@),
            Err(e) => Err(e@),
        },
    }
}

impl VirtualMachine {
    /// A machine at instruction 0 with an empty stack and no globals.
    pub fn new() -> (r: VirtualMachine)
        ensures
            r@ == (MachineView {
                ip: 0,
                stack: Seq::<ValueView>::empty(),
                globals: Map::<Seq<char>, ValueView>::empty(),
            }),
    {
        let r = Self { ip: 0, value_stack: Vec::new(), globals: NameSpace::new() };
        assert(r.value_stack.deep_view() =~= Seq::<ValueView>::empty());
        r
    }

    /// The index of the next instruction.
    pub fn ip(&self) -> (r: usize)
        ensures
            r == self@.ip,
    {
        self.ip
    }

    /// The depth of the value stack.
    pub fn depth(&self) -> (r: usize)
        ensures
            r == self@.stack.len(),
    {
        self.value_stack.len()
    }

    /// A copy of the value on top of the stack, if there is one.
    pub fn top(&self) -> (r: Option<Value>)
        ensures
            self@.stack.len() == 0 ==> r.is_none(),
            self@.stack.len() > 0 ==> r.is_some() && r.unwrap()@ == self@.stack.last(),
    {
        match self.peek() {
            Ok(v) => Some(v),
            Err(_) => None,
        }
    }

    /// A copy of the value of the global `name`, if it is defined.
    pub fn global(&self, name: &str) -> (r: Option<Value>)
        ensures
            self@.globals.contains_key(name@) ==> r.is_some() && r.unwrap()@
                == self@.globals[name@],
            !self@.globals.contains_key(name@) ==> r.is_none(),
    {
        self.globals.get(name)
    }

    /// Runs the chunk from the instruction pointer on, until the machine is
    /// past the last instruction, an instruction fails, or one needs the
    /// driver: see [`Action`].
    pub fn exec(&mut self, chunk: &Chunk) -> (r: Result<Action, RuntimeError>)
        requires
            chunk@.indices_in_pool(),
        ensures
            stop_of(final(self)@, r) == run(chunk@, old(self)@),
    {
        let size = chunk.len();
        loop
            invariant
                chunk@.indices_in_pool(),
                size == chunk@.code.len(),
                run(chunk@, self@) == run(chunk@, old(self)@),
            decreases chunk@.code.len() - self@.ip,
        {
            let kind = match chunk.get(self.ip) {
                Some(instruction) => *instruction.kind(),
                None => {
                    return Ok(Action::Halt);
                },
            };
            proof {
                lemma_step_ip(chunk@, self@);
            }
            self.ip += 1;
            let done = match kind {
                OpCodeKind::Const { const_idx } => {
                    self.op_const(chunk, const_idx);
                    Ok(None)
                },
                OpCodeKind::Negate => self.op_negate(),
                OpCodeKind::Add => self.bin_op(BinOpKind::ADD),
                OpCodeKind::Sub => self.bin_op(BinOpKind::SUB),
                OpCodeKind::Mul => self.bin_op(BinOpKind::MUL),
                OpCodeKind::Div => self.bin_op(BinOpKind::DIV),
                OpCodeKind::Null => {
                    self.push_value(Value::Null);
                    Ok(None)
                },
                OpCodeKind::True => {
                    self.push_value(Value::Boolean(true));
                    Ok(None)
                },
                OpCodeKind::False => {
                    self.push_value(Value::Boolean(false));
                    Ok(None)
                },
                OpCodeKind::Not => self.op_not(),
                OpCodeKind::Eq => self.op_eq(),
                OpCodeKind::Gt => self.op_cmp(Compare::Greater),
                OpCodeKind::Lt => self.op_cmp(Compare::Lower),
                OpCodeKind::Print => self.op_print(),
                OpCodeKind::Pop => match self.pop_or_err() {
                    Ok(_) => Ok(None),
                    Err(e) => Err(e),
                },
                OpCodeKind::DefineGlobal { name_idx } => self.op_define_global(chunk, name_idx),
                OpCodeKind::ReadGlobal { name_idx } => self.op_read_global(chunk, name_idx),
                OpCodeKind::SetGlobal { name_idx } => self.op_set_global(chunk, name_idx),
                OpCodeKind::ReadLocal { name_idx } => self.op_read_local(name_idx),
                OpCodeKind::SetLocal { name_idx } => self.op_set_local(name_idx),
            };
            match self.as_vm_result(chunk, done)? {
                None => {},
                Some(action) => {
                    return Ok(action);
                },
            }
        }
    }

    /// Takes the driver's answer to an arithmetic action and runs on: the
    /// number is pushed, then the machine runs as [`Self::exec`] does.
    pub fn resume(&mut self, chunk: &Chunk, number: u64) -> (r: Result<Action, RuntimeError>)
        requires
            chunk@.indices_in_pool(),
        ensures
            stop_of(final(self)@, r) == resume(chunk@, old(self)@, number),
    {
        self.push_value(Value::Float(number));
        self.exec(chunk)
    }

    /// The error of the instruction that the machine has just stepped past.
    fn runtime_error(&self, chunk: &Chunk, kind: RuntimeErrorKind) -> (r: RuntimeError)
        requires
            1 <= self@.ip <= chunk@.code.len(),
        ensures
            r@ == (RuntimeErrorView { kind: kind@, line: chunk@.code[self@.ip - 1].line }),
    {
        match chunk.get(self.ip - 1) {
            Some(prev_instruction) => RuntimeError { kind, line: prev_instruction.line() },
            None => RuntimeError { kind, line: 0 },
        }
    }

    fn peek(&self) -> (r: Result<Value, RuntimeErrorKind>)
        ensures
            self@.stack.len() == 0 ==> r is Err && r->Err_0 is MissingValue,
            self@.stack.len() > 0 ==> r is Ok && r->Ok_0@ == self@.stack.last(),
    {
        let n = self.value_stack.len();
        if n == 0 {
            return Err(RuntimeErrorKind::MissingValue);
        }
        Ok(self.value_stack[n - 1].copy())
    }

    fn push_value(&mut self, value: Value)
        ensures
            final(self)@ == old(self)@.push(value@),
    {
        self.value_stack.push(value);
        assert(self.value_stack.deep_view() =~= old(self).value_stack.deep_view().push(value@));
    }

    fn pop_or_err(&mut self) -> (r: Result<Value, RuntimeErrorKind>)
        ensures
            old(self)@.stack.len() == 0 ==> r is Err && r->Err_0 is MissingValue && final(self)@
                == old(self)@,
            old(self)@.stack.len() > 0 ==> r is Ok && r->Ok_0@ == old(self)@.stack.last()
                && final(self)@ == old(self)@.pop(),
    {
        match self.value_stack.pop() {
            Some(value) => {
                assert(self.value_stack.deep_view() =~= old(self).value_stack.deep_view().drop_last());
                Ok(value)
            },
            None => Err(RuntimeErrorKind::MissingValue),
        }
    }

    /// The result of a helper, with the line of the failing instruction on
    /// its error.
    fn as_vm_result<T>(&self, chunk: &Chunk, result: Result<T, RuntimeErrorKind>) -> (r: Result<
        T,
        RuntimeError,
    >)
        requires
            1 <= self@.ip <= chunk@.code.len(),
        ensures
            match result {
                Ok(v) => r == Ok::<T, RuntimeError>(v),
                Err(kind) => r is Err && r->Err_0@ == (RuntimeErrorView {
                    kind: kind@,
                    line: chunk@.code[self@.ip - 1].line,
                }),
            },
    {
        match result {
            Ok(v) => Ok(v),
            Err(error) => Err(self.runtime_error(chunk, error)),
        }
    }

    fn bin_op(&mut self, kind: BinOpKind) -> (r: Result<Option<Action>, RuntimeErrorKind>)
        ensures
            step_of(final(self)@, r) == binary_step(old(self)@, kind),
    {
        let b = self.pop_or_err()?;
        let a = self.pop_or_err()?;
        match (&a, &b) {
            (Value::Float(a_val), Value::Float(b_val)) => Ok(
                Some(Action::Arithmetic { op: kind, left: *a_val, right: *b_val }),
            ),
            (Value::Object(x), Value::Object(y)) => {
                match kind {
                    BinOpKind::ADD => {
                        let sum = x.add(y)?;
                        self.push_value(Value::Object(sum));
                        Ok(None)
                    },
                    _ => Err(
                        unsupported(kind.symbol(), x.kind_name().as_str(), y.kind_name().as_str()),
                    ),
                }
            },
            (val1, val2) => Err(
                unsupported(kind.symbol(), val1.kind_name().as_str(), val2.kind_name().as_str()),
            ),
        }
    }

    /// The name that the constant at `idx` holds.
    fn read_identifier_const(&self, chunk: &Chunk, idx: usize) -> (r: Result<
        String,
        RuntimeErrorKind,
    >)
        requires
            idx < chunk@.constants.len(),
        ensures
            match name_at(chunk@, idx as int) {
                Ok(name) => r is Ok && r->Ok_0@ == name,
                Err(e) => r is Err && r->Err_0@ == e,
            },
    {
        match chunk.get_const(idx) {
            Some(Value::Identifier(identifier)) => Ok(identifier.clone()),
            Some(other) => Err(
                RuntimeErrorKind::TypeError {
                    expected: String::from_str("identifier"),
                    got: other.kind_name(),
                },
            ),
            None => Err(RuntimeErrorKind::MissingValue),
        }
    }

    fn op_const(&mut self, chunk: &Chunk, const_idx: usize)
        requires
            const_idx < chunk@.constants.len(),
        ensures
            final(self)@ == old(self)@.push(chunk@.constants[const_idx as int]),
    {
        match chunk.get_const(const_idx) {
            Some(const_value) => {
                let cloned_value = const_value.copy();
                self.push_value(cloned_value);
            },
            None => {},
        }
    }

    fn op_negate(&mut self) -> (r: Result<Option<Action>, RuntimeErrorKind>)
        ensures
            step_of(final(self)@, r) == negate_step(old(self)@),
    {
        let peek = self.peek()?;
        match peek {
            Value::Float(float_value) => {
                let _ = self.pop_or_err();
                self.push_value(Value::Float(number::negate(float_value)));
                Ok(None)
            },
            other => {
                let mut target = String::from_str("for ");
                match other.display() {
                    Some(text) => {
                        target.append(text.as_str());
                    },
                    None => {},
                }
                Err(RuntimeErrorKind::OperationNotSupported { op: String::from_str("-"), target })
            },
        }
    }

    fn op_not(&mut self) -> (r: Result<Option<Action>, RuntimeErrorKind>)
        ensures
            step_of(final(self)@, r) == not_step(old(self)@),
    {
        let value = self.pop_or_err()?;
        self.push_value(Value::Boolean(!value.as_bool()));
        Ok(None)
    }

    fn op_eq(&mut self) -> (r: Result<Option<Action>, RuntimeErrorKind>)
        ensures
            step_of(final(self)@, r) == equal_step(old(self)@),
    {
        let b = self.pop_or_err()?;
        let a = self.pop_or_err()?;
        let result = a == b;
        self.push_value(Value::Boolean(result));
        Ok(None)
    }

    fn op_cmp(&mut self, expected: Compare) -> (r: Result<Option<Action>, RuntimeErrorKind>)
        ensures
            step_of(final(self)@, r) == order_step(old(self)@, expected),
    {
        let b = self.pop_or_err()?;
        let a = self.pop_or_err()?;
        let found = a.cmp(&b)?;
        let result = found == expected;
        self.push_value(Value::Boolean(result));
        Ok(None)
    }

    fn op_print(&mut self) -> (r: Result<Option<Action>, RuntimeErrorKind>)
        ensures
            step_of(final(self)@, r) == print_step(old(self)@),
    {
        let value = self.pop_or_err()?;
        match value {
            Value::Float(bits) => Ok(Some(Action::PrintNumber(bits))),
            other => match other.display() {
                Some(text) => Ok(Some(Action::Print(text))),
                None => Ok(Some(Action::Print(String::new()))),
            },
        }
    }

    fn op_define_global(&mut self, chunk: &Chunk, name_idx: usize) -> (r: Result<
        Option<Action>,
        RuntimeErrorKind,
    >)
        requires
            name_idx < chunk@.constants.len(),
        ensures
            step_of(final(self)@, r) == define_step(chunk@, old(self)@, name_idx as int),
    {
        let name = self.read_identifier_const(chunk, name_idx)?;
        if self.globals.contains(name.as_str()) {
            return Err(RuntimeErrorKind::AlreadyDefinedVariable { name });
        }
        let value = self.peek()?;
        self.globals.insert(name, value);
        let _ = self.pop_or_err();
        Ok(None)
    }

    fn op_read_global(&mut self, chunk: &Chunk, name_idx: usize) -> (r: Result<
        Option<Action>,
        RuntimeErrorKind,
    >)
        requires
            name_idx < chunk@.constants.len(),
        ensures
            step_of(final(self)@, r) == read_global_step(chunk@, old(self)@, name_idx as int),
    {
        let name = self.read_identifier_const(chunk, name_idx)?;
        match self.globals.get(name.as_str()) {
            Some(value) => {
                self.push_value(value);
                Ok(None)
            },
            None => Err(RuntimeErrorKind::UndefinedVariable { name }),
        }
    }

    fn op_set_global(&mut self, chunk: &Chunk, name_idx: usize) -> (r: Result<
        Option<Action>,
        RuntimeErrorKind,
    >)
        requires
            name_idx < chunk@.constants.len(),
        ensures
            step_of(final(self)@, r) == set_global_step(chunk@, old(self)@, name_idx as int),
    {
        let name = self.read_identifier_const(chunk, name_idx)?;
        if !self.globals.contains(name.as_str()) {
            return Err(RuntimeErrorKind::UndefinedVariable { name });
        }
        let value = self.peek()?;
        self.globals.insert(name, value);
        Ok(None)
    }

    fn op_read_local(&mut self, name_idx: usize) -> (r: Result<Option<Action>, RuntimeErrorKind>)
        ensures
            step_of(final(self)@, r) == read_local_step(old(self)@, name_idx as int),
    {
        if name_idx >= self.value_stack.len() {
            return Err(RuntimeErrorKind::MissingValue);
        }
        let cloned_value = self.value_stack[name_idx].copy();
        self.push_value(cloned_value);
        Ok(None)
    }

    fn op_set_local(&mut self, name_idx: usize) -> (r: Result<Option<Action>, RuntimeErrorKind>)
        ensures
            step_of(final(self)@, r) == set_local_step(old(self)@, name_idx as int),
    {
        if name_idx >= self.value_stack.len() {
            return Err(RuntimeErrorKind::MissingValue);
        }
        let value = self.peek()?;
        self.value_stack.set(name_idx, value);
        assert(self.value_stack.deep_view() =~= old(self).value_stack.deep_view().update(
            name_idx as int,
            value@,
        ));
        Ok(None)
    }
}

} // verus!
