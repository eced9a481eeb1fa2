//! Laws of the machine: properties that hold of every state.

use vstd::prelude::*;
use crate::chunk::{net_effect, ChunkView, OpCode, OpCodeKind};
use crate::machine::{
    define_step, dispatch, drive, name_at, read_global_step, run, set_global_step,
    set_local_step, step, ActionView, MachineView, Step,
};
use crate::errors::RuntimeErrorView;
use crate::syntax::{extends, Pass};
use crate::value::ValueView;

verus! {

/// A global that has just been defined reads back as the value it was
/// defined with: where defining the name of constant `i` succeeds, reading
/// through any constant `j` that holds the same name pushes the value that
/// was on top of the stack at the definition.
pub proof fn law_defined_global_reads_back(chunk: ChunkView, m: MachineView, i: int, j: int)
    requires
        define_step(chunk, m, i) is Go,
        name_at(chunk, j) == name_at(chunk, i),
    ensures
        m.stack.len() > 0,
        read_global_step(chunk, define_step(chunk, m, i)->Go_0, j) == Step::Go(
            define_step(chunk, m, i)->Go_0.push(m.stack.last()),
        ),
{
}

/// Equality and the negation of inequality agree: where `Eq` succeeds, `Eq`
/// followed by two `Not`s leaves the machine in the same state as `Eq` alone.
pub proof fn law_equal_is_not_unequal(chunk: ChunkView, m: MachineView)
    requires
        dispatch(chunk, m, OpCodeKind::Eq) is Go,
    ensures
        ({
            let equal = dispatch(chunk, m, OpCodeKind::Eq)->Go_0;
            let unequal = dispatch(chunk, equal, OpCodeKind::Not);
            &&& unequal is Go
            &&& dispatch(chunk, unequal->Go_0, OpCodeKind::Not) == Step::Go(equal)
        }),
{
    let equal = dispatch(chunk, m, OpCodeKind::Eq)->Go_0;
    let unequal = dispatch(chunk, equal, OpCodeKind::Not)->Go_0;
    let back = dispatch(chunk, unequal, OpCodeKind::Not)->Go_0;
    assert(back.stack =~= equal.stack);
}

/// An assignment is an expression whose value is the value assigned: where
/// `SetGlobal` succeeds, the stack is as it was, and the global holds the
/// value on top of it.
pub proof fn law_global_assignment_keeps_value(chunk: ChunkView, m: MachineView, i: int)
    requires
        set_global_step(chunk, m, i) is Go,
    ensures
        ({
            let after = set_global_step(chunk, m, i)->Go_0;
            &&& after.stack == m.stack
            &&& m.stack.len() > 0
            &&& name_at(chunk, i) is Ok
            &&& after.globals[name_at(chunk, i)->Ok_0] == m.stack.last()
        }),
{
}

/// The same of a local: where `SetLocal` succeeds, the top of the stack is
/// as it was, and the local's slot holds that value.
pub proof fn law_local_assignment_keeps_value(m: MachineView, slot: int)
    requires
        0 <= slot,
        set_local_step(m, slot) is Go,
    ensures
        ({
            let after = set_local_step(m, slot)->Go_0;
            &&& after.stack.len() == m.stack.len()
            &&& after.stack.last() == m.stack.last()
            &&& after.stack[slot] == m.stack.last()
        }),
{
}

/// The net effect of two runs of instructions is the sum of their net
/// effects.
pub proof fn lemma_net_effect_sum(a: Seq<OpCode>, b: Seq<OpCode>)
    ensures
        net_effect(a + b) == net_effect(a) + net_effect(b),
    decreases b.len(),
{
    if b.len() == 0 {
        assert(a + b =~= a);
    } else {
        lemma_net_effect_sum(a, b.drop_last());
        assert((a + b).drop_last() =~= a + b.drop_last());
    }
}

/// One more on the stack for an arithmetic action, whose result the driver
/// still owes.
pub open spec fn owed(result: ActionView) -> int {
    if result is Arithmetic {
        1
    } else {
        0
    }
}

/// Every instruction that does not fail changes the depth of the stack by
/// its effect, counting the result that an arithmetic action still owes.
pub proof fn lemma_step_depth(chunk: ChunkView, m: MachineView)
    requires
        m.ip < chunk.code.len(),
    ensures
        match step(chunk, m) {
            Step::Go(next) => next.stack.len() == m.stack.len() + chunk.code[m.ip as int].kind.effect(),
            Step::Yield(next, action) => next.stack.len() + owed(action) == m.stack.len()
                + chunk.code[m.ip as int].kind.effect(),
            Step::Fail(_, _) => true,
        },
{
}

/// A stretch of running that does not fail changes the depth of the stack by
/// the net effect of the instructions it ran, counting the result that an
/// arithmetic action still owes; and it halts only past the last
/// instruction.
pub proof fn lemma_run_depth(chunk: ChunkView, m: MachineView)
    requires
        m.ip <= chunk.code.len() <= usize::MAX,
    ensures
        ({
            let stop = run(chunk, m);
            &&& m.ip <= stop.machine.ip <= chunk.code.len()
            &&& stop.result is Ok ==> stop.machine.stack.len() + owed(stop.result->Ok_0)
                == m.stack.len() + net_effect(
                chunk.code.subrange(m.ip as int, stop.machine.ip as int),
            )
            &&& stop.result == Ok::<ActionView, crate::errors::RuntimeErrorView>(ActionView::Halt)
                ==> stop.machine.ip == chunk.code.len()
            &&& stop.result is Ok && stop.result->Ok_0 !is Halt ==> m.ip < stop.machine.ip
        }),
    decreases chunk.code.len() - m.ip,
{
    let stop = run(chunk, m);
    if m.ip >= chunk.code.len() {
        assert(chunk.code.subrange(m.ip as int, m.ip as int) =~= Seq::<OpCode>::empty());
    } else {
        lemma_step_depth(chunk, m);
        crate::machine::lemma_step_ip(chunk, m);
        let one = chunk.code.subrange(m.ip as int, m.ip + 1);
        assert(one.drop_last() =~= Seq::<OpCode>::empty());
        assert(net_effect(one.drop_last()) == 0);
        assert(one.last() == chunk.code[m.ip as int]);
        assert(net_effect(one) == chunk.code[m.ip as int].kind.effect());
        match step(chunk, m) {
            Step::Go(next) => {
                lemma_run_depth(chunk, next);
                let rest = chunk.code.subrange(next.ip as int, stop.machine.ip as int);
                lemma_net_effect_sum(one, rest);
                assert(one + rest =~= chunk.code.subrange(m.ip as int, stop.machine.ip as int));
            },
            Step::Yield(next, action) => {},
            Step::Fail(_, _) => {},
        }
    }
}

/// A whole run that halts changes the depth of the stack by the net effect
/// of the instructions from where it started to the end of the chunk,
/// whatever the driver answered.
pub proof fn law_run_depth(chunk: ChunkView, m: MachineView, replies: Seq<u64>)
    requires
        m.ip <= chunk.code.len() <= usize::MAX,
        drive(chunk, m, replies).result == Ok::<ActionView, RuntimeErrorView>(ActionView::Halt),
    ensures
        drive(chunk, m, replies).machine.stack.len() == m.stack.len() + net_effect(
            chunk.code.subrange(m.ip as int, chunk.code.len() as int),
        ),
    decreases chunk.code.len() - m.ip,
{
    let stop = run(chunk, m);
    lemma_run_depth(chunk, m);
    let ran = chunk.code.subrange(m.ip as int, stop.machine.ip as int);
    let rest = chunk.code.subrange(stop.machine.ip as int, chunk.code.len() as int);
    lemma_net_effect_sum(ran, rest);
    assert(ran + rest =~= chunk.code.subrange(m.ip as int, chunk.code.len() as int));
    if m.ip < stop.machine.ip <= chunk.code.len() {
        match stop.result {
            Ok(ActionView::Print(_)) => {
                law_run_depth(chunk, stop.machine, replies);
            },
            Ok(ActionView::PrintNumber(_)) => {
                law_run_depth(chunk, stop.machine, replies);
            },
            Ok(ActionView::Arithmetic { .. }) => {
                if replies.len() > 0 {
                    law_run_depth(
                        chunk,
                        stop.machine.push(ValueView::Float(replies.first())),
                        replies.drop_first(),
                    );
                }
            },
            _ => {
                assert(rest =~= Seq::<OpCode>::empty());
            },
        }
    } else {
        assert(rest =~= Seq::<OpCode>::empty());
    }
}

/// A program leaves the value stack as deep as it found it. Where a chunk
/// has grown by instructions whose net effect is nothing, as a compiled
/// program's is, and a machine that stood at the end of the old chunk runs
/// to a halt, the stack is as deep at the end as at the start.
pub proof fn law_balanced_program(
    before: ChunkView,
    after: ChunkView,
    m: MachineView,
    replies: Seq<u64>,
)
    requires
        extends(before.code, after.code),
        net_effect(after.code) == net_effect(before.code),
        after.code.len() <= usize::MAX,
        m.ip == before.code.len(),
        drive(after, m, replies).result == Ok::<ActionView, RuntimeErrorView>(ActionView::Halt),
    ensures
        drive(after, m, replies).machine.stack.len() == m.stack.len(),
{
    law_run_depth(after, m, replies);
    let added = after.code.subrange(m.ip as int, after.code.len() as int);
    assert(after.code.subrange(0, m.ip as int) =~= before.code);
    lemma_net_effect_sum(before.code, added);
    assert(before.code + added =~= after.code);
}

/// Leaving a block removes exactly the locals that the block added. Where
/// the first `outer` locals belong to the scopes around the innermost one and
/// the rest to the innermost, leaving it keeps the first `outer` locals and
/// nothing else, and writes one instruction for each local that goes.
pub proof fn law_end_scope_removes_the_block(p: Pass, outer: int)
    requires
        p.scope_depth > 0,
        0 <= outer <= p.locals.len(),
        forall|i: int| 0 <= i < outer ==> (#[trigger] p.locals[i]).depth < p.scope_depth,
        forall|i: int|
            outer <= i < p.locals.len() ==> (#[trigger] p.locals[i]).depth >= p.scope_depth,
    ensures
        p.end_scope().locals == p.locals.take(outer),
        p.end_scope().scope_depth == p.scope_depth - 1,
        p.end_scope().code.len() == p.code.len() + (p.locals.len() - outer),
        extends(p.code, p.end_scope().code),
        forall|i: int|
            p.code.len() <= i < p.end_scope().code.len() ==> (#[trigger] p.end_scope().code[i]).kind
                == OpCodeKind::Pop,
{
    let left = Pass { scope_depth: (p.scope_depth - 1) as nat, ..p };
    lemma_drop_locals(left, outer);
}

/// The locals that lie deeper than the open scopes are exactly those from
/// `outer` on, where the ones before `outer` lie no deeper than the open
/// scopes and the ones from `outer` on lie deeper.
pub proof fn lemma_drop_locals(p: Pass, outer: int)
    requires
        0 <= outer <= p.locals.len(),
        forall|i: int| 0 <= i < outer ==> (#[trigger] p.locals[i]).depth <= p.scope_depth,
        forall|i: int|
            outer <= i < p.locals.len() ==> (#[trigger] p.locals[i]).depth > p.scope_depth,
    ensures
        p.drop_locals().locals == p.locals.take(outer),
        p.drop_locals().scope_depth == p.scope_depth,
        p.drop_locals().code.len() == p.code.len() + (p.locals.len() - outer),
        extends(p.code, p.drop_locals().code),
        forall|i: int|
            p.code.len() <= i < p.drop_locals().code.len() ==> (
            #[trigger] p.drop_locals().code[i]).kind == OpCodeKind::Pop,
    decreases p.locals.len() - outer,
{
    if p.locals.len() > outer {
        let next = Pass { locals: p.locals.drop_last(), ..p.emit(OpCodeKind::Pop) };
        assert(p.locals.last() == p.locals[p.locals.len() - 1]);
        assert forall|i: int| 0 <= i < outer implies (#[trigger] next.locals[i]).depth
            <= next.scope_depth by {
            assert(next.locals[i] == p.locals[i]);
        }
        assert forall|i: int| outer <= i < next.locals.len() implies (
        #[trigger] next.locals[i]).depth > next.scope_depth by {
            assert(next.locals[i] == p.locals[i]);
        }
        lemma_drop_locals(next, outer);
        assert(next.locals.take(outer) =~= p.locals.take(outer));
        assert forall|i: int| 0 <= i < p.code.len() implies #[trigger] p.drop_locals().code[i]
            == p.code[i] by {
            assert(next.code[i] == p.code[i]);
        }
        assert forall|i: int| p.code.len() <= i < p.drop_locals().code.len() implies (
        #[trigger] p.drop_locals().code[i]).kind == OpCodeKind::Pop by {
            if i == p.code.len() {
                assert(next.code[i].kind == OpCodeKind::Pop);
                assert(p.drop_locals().code[i] == next.code[i]);
            }
        }
    } else {
        if p.locals.len() > 0 {
            assert(p.locals.last() == p.locals[p.locals.len() - 1]);
        }
        assert(p.locals.take(outer) =~= p.locals);
    }
}

} // verus!
