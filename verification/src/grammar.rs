//! Properties of the grammar, by induction over it: every construct that
//! compiles moves the pass on, keeps what was written before it, writes
//! instructions with good lines and good constant indices, and changes the
//! depth of the value stack by a known amount.
//!
//! The definitions of [`crate::syntax`] repeat a construct only while the
//! pass moves on. The lemmas here show that it always does, so that those
//! tests never cut a repetition short.

use vstd::prelude::*;
use crate::chunk::{net_effect, OpCode, OpCodeKind};
use crate::errors::ParsingErrorView;
use crate::lexis::lemma_scan;
use crate::precedence::{rule_of, ParseFn, Precedence};
use crate::syntax::{
    apply_rule, binary_op, block, declaration, declarations, end_var_statement,
    expr_statement, expression, extends, grouping, infix_loop, is_negated, keeps,
    lemma_advance, lemma_keeps, lemma_keeps_same, named_variable, operators, parse_precedence,
    print_statement, program, start, stated, statement, unary, unary_code, valued,
    var_statement, Pass,
};
use crate::token::TokenType;
use crate::value::ValueView;

verus! {

/// What holds of a step that writes nothing and leaves scopes and locals as
/// they are.
pub open spec fn moved(a: Pass, b: Pass) -> bool {
    &&& keeps(a, b)
    &&& b.code == a.code
    &&& b.constants == a.constants
    &&& b.locals == a.locals
    &&& b.scope_depth == a.scope_depth
    &&& b.used == a.used
}

/// Consuming a token leaves a pass ready, writes nothing, and sets the next
/// token after the one consumed.
pub proof fn lemma_advance_ready(p: Pass)
    requires
        p.steady(),
    ensures
        p.advance() matches Ok(q) ==> {
            &&& q.ready()
            &&& moved(p, q)
            &&& q.previous == p.current
            &&& q.rest() <= p.rest()
            &&& !(p.current is Some && p.ahead() == TokenType::EOF) ==> q.rest() < p.rest()
            &&& p.current matches Some(token) ==> token.start + token.length
                <= q.current.unwrap().start
        },
{
    lemma_scan(p.source, p.at as int, p.line as int);
    lemma_advance(p);
    if p.advance() is Ok {
        lemma_keeps_same(p, p.advance()->Ok_0);
    }
}

/// Consuming a token of a given kind: as [`lemma_advance_ready`].
pub proof fn lemma_consume(p: Pass, kind: TokenType, message: Seq<char>)
    requires
        p.ready(),
    ensures
        p.consume(kind, message) matches Ok(q) ==> {
            &&& q.primed()
            &&& moved(p, q)
            &&& q.behind() == kind
            &&& q.rest() <= p.rest()
            &&& kind != TokenType::EOF ==> q.rest() < p.rest()
            &&& p.current.unwrap().start + p.current.unwrap().length <= q.current.unwrap().start
        },
{
    lemma_advance_ready(p);
}

/// Writing an instruction keeps the pass as it is but for the instruction,
/// whose effect is added to the depth.
pub proof fn lemma_emit(p: Pass, kind: OpCodeKind)
    requires
        p.previous matches Some(token) && token.line >= 1,
        kind.reads_pool() ==> kind.operand().unwrap() < p.constants.len(),
    ensures
        keeps(p, p.emit(kind)),
        p.emit(kind).net() == p.net() + kind.effect(),
        p.emit(kind).rest() == p.rest(),
        p.steady() ==> p.emit(kind).steady(),
{
    reveal(keeps);
    assert(p.emit(kind).code.drop_last() =~= p.code);
}

/// Adding a constant keeps the pass as it is but for the constant.
pub proof fn lemma_add_const(p: Pass, value: ValueView)
    ensures
        keeps(p, p.add_const(value)),
        p.add_const(value).net() == p.net(),
        p.steady() ==> p.add_const(value).steady(),
{
    reveal(keeps);
}

/// Writing a constant and the instruction that loads it.
pub proof fn lemma_emit_const(p: Pass, value: ValueView)
    requires
        p.primed(),
        p.constants.len() < usize::MAX,
    ensures
        keeps(p, p.emit_const(value)),
        valued(p, p.emit_const(value), 1),
{
    let added = p.add_const(value);
    lemma_add_const(p, value);
    lemma_emit(added, OpCodeKind::Const { const_idx: p.constants.len() as usize });
    lemma_keeps(p, added, p.emit_const(value));
}

/// The locals that lie deeper than the open scopes go, with a `Pop` each,
/// and nothing else changes.
pub proof fn lemma_drop_locals_keeps(p: Pass, outer: int)
    requires
        p.previous matches Some(token) && token.line >= 1,
        0 <= outer <= p.locals.len(),
        forall|i: int| 0 <= i < outer ==> (#[trigger] p.locals[i]).depth <= p.scope_depth,
        forall|i: int|
            outer <= i < p.locals.len() ==> (#[trigger] p.locals[i]).depth > p.scope_depth,
    ensures
        keeps(p, p.drop_locals()),
        p.drop_locals() == (Pass {
            locals: p.locals.take(outer),
            code: p.drop_locals().code,
            ..p
        }),
        p.drop_locals().net() == p.net() - (p.locals.len() - outer),
    decreases p.locals.len() - outer,
{
    if p.locals.len() > outer {
        let popped = p.emit(OpCodeKind::Pop);
        let next = Pass { locals: p.locals.drop_last(), ..popped };
        lemma_emit(p, OpCodeKind::Pop);
        lemma_keeps_same(popped, next);
        lemma_keeps(p, popped, next);
        assert(p.locals.last() == p.locals[p.locals.len() - 1]);
        assert forall|i: int| 0 <= i < outer implies (#[trigger] next.locals[i]).depth
            <= next.scope_depth by {
            assert(next.locals[i] == p.locals[i]);
        }
        assert forall|i: int| outer <= i < next.locals.len() implies (
        #[trigger] next.locals[i]).depth > next.scope_depth by {
            assert(next.locals[i] == p.locals[i]);
        }
        lemma_drop_locals_keeps(next, outer);
        lemma_keeps(p, next, next.drop_locals());
        assert(next.locals.take(outer) =~= p.locals.take(outer));
    } else {
        if p.locals.len() > 0 {
            assert(p.locals.last() == p.locals[p.locals.len() - 1]);
        }
        assert(p.locals.take(outer) =~= p.locals);
        lemma_keeps_same(p, p);
    }
}

/// The name of a declaration: see [`Pass::parse_variable_name`].
pub proof fn lemma_parse_variable_name(p: Pass, message: Seq<char>)
    requires
        p.ready(),
        p.constants.len() < usize::MAX,
    ensures
        p.parse_variable_name(message) matches Ok((q, index)) ==> {
            &&& q.primed()
            &&& keeps(p, q)
            &&& q.rest() < p.rest()
            &&& q.scope_depth == p.scope_depth
            &&& q.net() == p.net()
            &&& q.scope_depth == 0 ==> q.locals == p.locals && index < q.constants.len()
            &&& q.scope_depth > 0 ==> q.locals == p.locals.push(q.locals.last())
                && q.locals.last().depth == q.scope_depth && q.constants == p.constants
        },
{
    lemma_consume(p, TokenType::IDENTIFIER, message);
    if p.consume(TokenType::IDENTIFIER, message) is Ok {
        let named = p.consume(TokenType::IDENTIFIER, message)->Ok_0;
        if named.declare_variable() is Ok {
            let declared = named.declare_variable()->Ok_0;
            lemma_keeps_same(named, declared);
            lemma_keeps(p, named, declared);
            if declared.scope_depth == 0 {
                if declared.identifier() is Ok {
                    let name = declared.identifier()->Ok_0;
                    lemma_add_const(declared, ValueView::Identifier(name));
                    lemma_keeps(p, declared, declared.add_const(ValueView::Identifier(name)));
                }
            }
        }
    }
}

/// The end of a declaration: see [`Pass::define_global`].
pub proof fn lemma_define_global(p: Pass, index: usize)
    requires
        p.primed(),
        p.scope_depth == 0 ==> index < p.constants.len(),
    ensures
        keeps(p, p.define_global(index)),
        p.define_global(index).primed(),
        p.define_global(index).rest() == p.rest(),
        p.define_global(index).scope_depth == p.scope_depth,
        p.define_global(index).locals.len() == p.locals.len(),
        forall|i: int|
            0 <= i < p.locals.len() ==> (#[trigger] p.define_global(index).locals[i]).depth
                == p.locals[i].depth,
        p.define_global(index).net() == p.net() + if p.scope_depth == 0 {
            -1int
        } else {
            0int
        },
{
    if p.scope_depth == 0 {
        lemma_emit(p, OpCodeKind::DefineGlobal { name_idx: index });
    } else {
        lemma_keeps_same(p, p.define_global(index));
    }
}

/// An expression at a precedence: it leaves one value.
pub proof fn lemma_parse_precedence(p: Pass, min: Precedence)
    requires
        p.ready(),
        p.constants.len() + p.rest() < usize::MAX,
        min != Precedence::NONE,
    ensures
        parse_precedence(p, min) matches Ok(q) ==> {
            &&& valued(p, q, 1)
            &&& keeps(p, q)
            &&& q.rest() < p.rest()
            &&& q.constants.len() + q.rest() <= p.constants.len() + p.rest()
        },
    decreases p.rest(), 4int, 0int,
{
    lemma_advance_ready(p);
    if p.advance() is Ok {
        let first = p.advance()->Ok_0;
        if rule_of(first.behind()).prefix is Some {
            let prefix = rule_of(first.behind()).prefix->Some_0;
            let can_assign = min.rank() <= Precedence::Assignment.rank();
            lemma_apply_rule(first, prefix, can_assign);
            if apply_rule(first, prefix, can_assign) is Ok {
                let operand = apply_rule(first, prefix, can_assign)->Ok_0;
                lemma_keeps(p, first, operand);
                lemma_operators(operand, min, can_assign);
                if operators(operand, min, can_assign) is Ok {
                    lemma_keeps(p, operand, operators(operand, min, can_assign)->Ok_0);
                }
            }
        }
    }
}

/// What follows the first operand of an expression: it leaves the depth as
/// it is.
pub proof fn lemma_operators(p: Pass, min: Precedence, can_assign: bool)
    requires
        p.primed(),
        p.constants.len() + p.rest() < usize::MAX,
        min != Precedence::NONE,
    ensures
        operators(p, min, can_assign) matches Ok(q) ==> {
            &&& valued(p, q, 0)
            &&& keeps(p, q)
            &&& q.constants.len() + q.rest() <= p.constants.len() + p.rest()
        },
    decreases p.rest(), 3int, 1int,
{
    lemma_infix_loop(p, min, can_assign);
    if infix_loop(p, min, can_assign) is Ok {
        let done = infix_loop(p, min, can_assign)->Ok_0;
        lemma_advance_ready(done);
    }
}

/// The binary operators that follow an operand: they leave the depth as it
/// is.
pub proof fn lemma_infix_loop(p: Pass, min: Precedence, can_assign: bool)
    requires
        p.primed(),
        p.constants.len() + p.rest() < usize::MAX,
        min != Precedence::NONE,
    ensures
        infix_loop(p, min, can_assign) matches Ok(q) ==> {
            &&& valued(p, q, 0)
            &&& keeps(p, q)
            &&& q.constants.len() + q.rest() <= p.constants.len() + p.rest()
        },
    decreases p.rest(), 3int, 0int,
{
    if min.rank() <= rule_of(p.ahead()).precedence.rank() {
        lemma_advance_ready(p);
        if p.advance() is Ok {
            let operator = p.advance()->Ok_0;
            match rule_of(operator.behind()).infix {
                None => {
                    lemma_infix_loop(operator, min, can_assign);
                    if infix_loop(operator, min, can_assign) is Ok {
                        lemma_keeps(p, operator, infix_loop(operator, min, can_assign)->Ok_0);
                    }
                },
                Some(infix) => {
                    lemma_apply_rule(operator, infix, can_assign);
                    if apply_rule(operator, infix, can_assign) is Ok {
                        let operand = apply_rule(operator, infix, can_assign)->Ok_0;
                        lemma_keeps(p, operator, operand);
                        lemma_infix_loop(operand, min, can_assign);
                        if infix_loop(operand, min, can_assign) is Ok {
                            lemma_keeps(p, operand, infix_loop(operand, min, can_assign)->Ok_0);
                        }
                    }
                },
            }
        }
    } else {
        lemma_keeps_same(p, p);
    }
}

/// What a parse rule compiles: a binary operator with its right operand
/// leaves the depth as it is, and everything else leaves one value.
pub proof fn lemma_apply_rule(p: Pass, rule: ParseFn, can_assign: bool)
    requires
        p.primed(),
        p.constants.len() + p.rest() < usize::MAX,
        rule == ParseFn::Binary ==> binary_op(p.behind()) is Some,
    ensures
        apply_rule(p, rule, can_assign) matches Ok(q) ==> {
            &&& valued(
                p,
                q,
                if rule == ParseFn::Binary {
                    0int
                } else {
                    1int
                },
            )
            &&& keeps(p, q)
            &&& q.constants.len() + q.rest() <= p.constants.len() + p.rest() + 1
            &&& rule == ParseFn::Binary ==> q.constants.len() + q.rest() <= p.constants.len()
                + p.rest()
        },
    decreases p.rest(), 11int, 0int,
{
    match rule {
        ParseFn::Grouping => {
            lemma_expression(p);
            if expression(p) is Ok {
                let inner = expression(p)->Ok_0;
                lemma_consume(inner, TokenType::RightParen, "Expected ')'"@);
                if grouping(p) is Ok {
                    lemma_keeps(p, inner, grouping(p)->Ok_0);
                }
            }
        },
        ParseFn::Unary => {
            lemma_parse_precedence(p, Precedence::Unary);
            if parse_precedence(p, Precedence::Unary) is Ok {
                let operand = parse_precedence(p, Precedence::Unary)->Ok_0;
                lemma_emit(operand, unary_code(p.behind()));
                lemma_keeps(p, operand, unary(p)->Ok_0);
            }
        },
        ParseFn::Binary => {
            let next = rule_of(p.behind()).precedence.next();
            lemma_parse_precedence(p, next);
            if parse_precedence(p, next) is Ok {
                let operand = parse_precedence(p, next)->Ok_0;
                let kind = binary_op(p.behind())->Some_0;
                lemma_emit(operand, kind);
                lemma_keeps(p, operand, operand.emit(kind));
                if is_negated(p.behind()) {
                    lemma_emit(operand.emit(kind), OpCodeKind::Not);
                    lemma_keeps(p, operand.emit(kind), operand.emit(kind).emit(OpCodeKind::Not));
                }
            }
        },
        ParseFn::Variable => {
            if p.identifier() is Ok {
                lemma_named_variable(p, p.identifier()->Ok_0, can_assign);
            }
        },
        ParseFn::String => {
            if p.string() is Ok {
                let text = p.previous.unwrap().literal->Some_0;
                lemma_emit_const(
                    p,
                    ValueView::Object(
                        crate::object::ObjectView { kind: crate::object::string_kind(), text },
                    ),
                );
            }
        },
        ParseFn::Number => {
            if p.number() is Ok {
                let taken = Pass { used: p.used + 1, ..p };
                lemma_keeps_same(p, taken);
                lemma_emit_const(taken, ValueView::Float(p.numbers[p.used as int]));
                lemma_keeps(p, taken, p.number()->Ok_0);
            }
        },
        ParseFn::Literal => {
            lemma_emit(
                p,
                match p.behind() {
                    TokenType::FALSE => OpCodeKind::False,
                    TokenType::TRUE => OpCodeKind::True,
                    _ => OpCodeKind::Null,
                },
            );
        },
    }
}

/// A variable, read or assigned: it leaves one value.
pub proof fn lemma_named_variable(p: Pass, name: Seq<char>, can_assign: bool)
    requires
        p.primed(),
        p.constants.len() + p.rest() < usize::MAX,
    ensures
        named_variable(p, name, can_assign) matches Ok(q) ==> {
            &&& valued(p, q, 1)
            &&& keeps(p, q)
            &&& q.constants.len() + q.rest() <= p.constants.len() + p.rest() + 1
        },
    decreases p.rest(), 9int, 0int,
{
    if p.resolve_local(name) is Ok {
        let slot = p.resolve_local(name)->Ok_0;
        let index = p.constants.len() as usize;
        let named = if slot is Some {
            p
        } else {
            p.add_const(ValueView::Identifier(name))
        };
        let get_op = if slot is Some {
            OpCodeKind::ReadLocal { name_idx: slot->Some_0 }
        } else {
            OpCodeKind::ReadGlobal { name_idx: index }
        };
        let set_op = if slot is Some {
            OpCodeKind::SetLocal { name_idx: slot->Some_0 }
        } else {
            OpCodeKind::SetGlobal { name_idx: index }
        };
        lemma_add_const(p, ValueView::Identifier(name));
        lemma_keeps_same(p, p);
        if can_assign && named.ahead() == TokenType::EQUAL {
            lemma_advance_ready(named);
            if named.advance() is Ok {
                let past = named.advance()->Ok_0;
                lemma_keeps(p, named, past);
                lemma_expression(past);
                if expression(past) is Ok {
                    let value = expression(past)->Ok_0;
                    lemma_keeps(p, past, value);
                    reveal(keeps);
                    lemma_emit(value, set_op);
                    lemma_keeps(p, value, value.emit(set_op));
                }
            }
        } else {
            lemma_emit(named, get_op);
            lemma_keeps(p, named, named.emit(get_op));
        }
    }
}

/// An expression: it leaves one value.
pub proof fn lemma_expression(p: Pass)
    requires
        p.ready(),
        p.constants.len() + p.rest() < usize::MAX,
    ensures
        expression(p) matches Ok(q) ==> {
            &&& valued(p, q, 1)
            &&& keeps(p, q)
            &&& q.rest() < p.rest()
            &&& q.constants.len() + q.rest() <= p.constants.len() + p.rest()
        },
    decreases p.rest(), 5int, 0int,
{
    lemma_parse_precedence(p, Precedence::Assignment);
}

/// A statement that is an expression and an instruction for its value: it
/// leaves the depth as it is.
pub proof fn lemma_value_statement(p: Pass, kind: OpCodeKind)
    requires
        p.ready(),
        p.constants.len() + p.rest() < usize::MAX,
        kind == OpCodeKind::Print || kind == OpCodeKind::Pop,
    ensures
        ({
            let r = if kind == OpCodeKind::Print {
                print_statement(p)
            } else {
                expr_statement(p)
            };
            r matches Ok(q) ==> {
                &&& valued(p, q, 0)
                &&& keeps(p, q)
                &&& q.rest() < p.rest()
                &&& q.constants.len() + q.rest() <= p.constants.len() + p.rest()
            }
        }),
{
    lemma_expression(p);
    if expression(p) is Ok {
        let value = expression(p)->Ok_0;
        lemma_consume(value, TokenType::SEMICOLON, "Expected ';'"@);
        if value.consume(TokenType::SEMICOLON, "Expected ';'"@) is Ok {
            let end = value.consume(TokenType::SEMICOLON, "Expected ';'"@)->Ok_0;
            lemma_emit(end, kind);
            lemma_keeps(p, value, end);
            lemma_keeps(p, end, end.emit(kind));
        }
    }
}

/// A `let` statement, after `let`: in a block it adds one local and leaves
/// one value for it; at the top level it leaves the depth as it is.
pub proof fn lemma_var_statement(p: Pass)
    requires
        p.ready(),
        p.constants.len() + p.rest() < usize::MAX,
    ensures
        var_statement(p) matches Ok(q) ==> {
            &&& q.primed()
            &&& keeps(p, q)
            &&& q.rest() < p.rest()
            &&& q.scope_depth == p.scope_depth
            &&& extends(p.locals, q.locals)
            &&& forall|i: int|
                p.locals.len() <= i < q.locals.len() ==> (#[trigger] q.locals[i]).depth
                    == q.scope_depth
            &&& q.net() - p.net() == q.locals.len() - p.locals.len()
            &&& q.constants.len() + q.rest() <= p.constants.len() + p.rest()
        },
{
    let message = "Expected variable name"@;
    lemma_parse_variable_name(p, message);
    if p.parse_variable_name(message) is Ok {
        let (named, global) = p.parse_variable_name(message)->Ok_0;
        let valued = if named.ahead() == TokenType::EQUAL {
            match named.advance() {
                Err(e) => Err(e),
                Ok(past) => expression(past),
            }
        } else {
            Ok(named.emit(OpCodeKind::Null))
        };
        if named.ahead() == TokenType::EQUAL {
            lemma_advance_ready(named);
            if named.advance() is Ok {
                let past = named.advance()->Ok_0;
                lemma_keeps(p, named, past);
                lemma_expression(past);
                if expression(past) is Ok {
                    lemma_keeps(p, past, expression(past)->Ok_0);
                }
            }
        } else {
            lemma_emit(named, OpCodeKind::Null);
            lemma_keeps(p, named, named.emit(OpCodeKind::Null));
        }
        if valued is Ok {
            let value = valued->Ok_0;
            let semicolon = "Expected ';' after variable declaration"@;
            lemma_consume(value, TokenType::SEMICOLON, semicolon);
            if value.consume(TokenType::SEMICOLON, semicolon) is Ok {
                let end = value.consume(TokenType::SEMICOLON, semicolon)->Ok_0;
                lemma_keeps(p, value, end);
                reveal(keeps);
                lemma_define_global(end, global);
                let q = end.define_global(global);
                lemma_keeps(p, end, q);
                assert(end_var_statement(value, global) == Ok::<Pass, ParsingErrorView>(q));
                assert forall|i: int| 0 <= i < p.locals.len() implies #[trigger] q.locals[i]
                    == p.locals[i] by {
                    assert(end.locals[i] == p.locals[i]);
                }
            }
        }
    }
}

/// The declarations of a block and its closing brace.
pub proof fn lemma_block(p: Pass)
    requires
        p.primed(),
        p.constants.len() + p.rest() < usize::MAX,
    ensures
        block(p) matches Ok(q) ==> {
            &&& stated(p, q)
            &&& keeps(p, q)
            &&& q.constants.len() + q.rest() <= p.constants.len() + p.rest()
        },
    decreases p.rest(), 9int, 0int,
{
    if p.ahead() != TokenType::RightBrace && p.ahead() != TokenType::EOF {
        lemma_declaration(p);
        if declaration(p) is Ok {
            let next = declaration(p)->Ok_0;
            lemma_block(next);
            if block(next) is Ok {
                let q = block(next)->Ok_0;
                lemma_keeps(p, next, q);
                assert forall|i: int| 0 <= i < p.locals.len() implies #[trigger] q.locals[i]
                    == p.locals[i] by {
                    assert(next.locals[i] == p.locals[i]);
                }
                assert forall|i: int| p.locals.len() <= i < q.locals.len() implies (
                #[trigger] q.locals[i]).depth == q.scope_depth by {
                    if i < next.locals.len() {
                        assert(q.locals[i] == next.locals[i]);
                    }
                }
            }
        }
    } else {
        lemma_consume(p, TokenType::RightBrace, "Expected '}' at the end of block"@);
    }
}

/// A statement: the pass moves on, and each new local has one value on the
/// stack. A block leaves the locals as they were.
pub proof fn lemma_statement(p: Pass)
    requires
        p.ready(),
        p.constants.len() + p.rest() < usize::MAX,
    ensures
        statement(p) matches Ok(q) ==> {
            &&& stated(p, q)
            &&& keeps(p, q)
            &&& q.constants.len() + q.rest() <= p.constants.len() + p.rest()
            &&& p.ahead() == TokenType::LeftBrace ==> q.locals == p.locals
        },
    decreases p.rest(), 7int, 0int,
{
    if p.ahead() == TokenType::PRINT {
        lemma_advance_ready(p);
        if p.advance() is Ok {
            let past = p.advance()->Ok_0;
            lemma_value_statement(past, OpCodeKind::Print);
            if print_statement(past) is Ok {
                lemma_keeps(p, past, print_statement(past)->Ok_0);
            }
        }
    } else if p.ahead() == TokenType::VAR {
        lemma_advance_ready(p);
        if p.advance() is Ok {
            let past = p.advance()->Ok_0;
            lemma_var_statement(past);
            if var_statement(past) is Ok {
                lemma_keeps(p, past, var_statement(past)->Ok_0);
            }
        }
    } else if p.ahead() == TokenType::LeftBrace {
        lemma_advance_ready(p);
        if p.advance() is Ok {
            let past = p.advance()->Ok_0;
            let inside = Pass { scope_depth: past.scope_depth + 1, ..past };
            lemma_keeps_same(past, inside);
            lemma_keeps(p, past, inside);
            lemma_block(inside);
            if block(inside) is Ok {
                let end = block(inside)->Ok_0;
                lemma_keeps(p, inside, end);
                let outer = p.locals.len() as int;
                let left = Pass { scope_depth: (end.scope_depth - 1) as nat, ..end };
                assert forall|i: int| 0 <= i < outer implies (#[trigger] left.locals[i]).depth
                    <= left.scope_depth by {
                    assert(end.locals[i] == p.locals[i]);
                }
                lemma_keeps_same(end, left);
                lemma_drop_locals_keeps(left, outer);
                let q = end.end_scope();
                lemma_keeps(p, end, left);
                lemma_keeps(p, left, q);
                assert(q.locals =~= p.locals);
                assert forall|i: int| 0 <= i < q.locals.len() implies 1 <= (
                #[trigger] q.locals[i]).depth <= q.scope_depth by {
                    assert(q.locals[i] == p.locals[i]);
                }
            }
        }
    } else {
        lemma_value_statement(p, OpCodeKind::Pop);
    }
}

/// A declaration: as a statement.
pub proof fn lemma_declaration(p: Pass)
    requires
        p.ready(),
        p.constants.len() + p.rest() < usize::MAX,
    ensures
        declaration(p) matches Ok(q) ==> {
            &&& stated(p, q)
            &&& keeps(p, q)
            &&& q.constants.len() + q.rest() <= p.constants.len() + p.rest()
        },
    decreases p.rest(), 8int, 0int,
{
    lemma_statement(p);
}

/// The declarations of a program: at the top level they leave the depth as
/// it is.
pub proof fn lemma_declarations(p: Pass)
    requires
        p.ready(),
        p.constants.len() + p.rest() < usize::MAX,
        p.scope_depth == 0,
        p.locals.len() == 0,
    ensures
        declarations(p) matches Ok(q) ==> keeps(p, q) && q.net() == p.net(),
    decreases p.rest(), 10int, 0int,
{
    if p.ahead() == TokenType::EOF {
        lemma_advance_ready(p);
    } else {
        lemma_declaration(p);
        if declaration(p) is Ok {
            let next = declaration(p)->Ok_0;
            if next.locals.len() > 0 {
                let newest = next.locals[0];
                assert(newest.depth == next.scope_depth);
                assert(1 <= newest.depth);
            }
            lemma_declarations(next);
            if declarations(next) is Ok {
                lemma_keeps(p, next, declarations(next)->Ok_0);
            }
        }
    }
}

/// What holds of every program that compiles. What the chunk held stays in
/// front of what is written. If the lines of the chunk were all from 1 on,
/// they still are; if its constant indices all lay inside the pool, they
/// still do. The instructions written leave the value stack as deep as they
/// found it.
pub proof fn law_compiled_program(
    source: Seq<char>,
    numbers: Seq<u64>,
    code: Seq<OpCode>,
    constants: Seq<ValueView>,
)
    requires
        source.len() + constants.len() + 2 < usize::MAX,
    ensures
        program(start(source, numbers, code, constants)) matches Ok(q) ==> {
            let p = start(source, numbers, code, constants);
            &&& extends(code, q.code)
            &&& extends(constants, q.constants)
            &&& p.chunk().lines_positive() ==> q.chunk().lines_positive()
            &&& p.chunk().indices_in_pool() ==> q.chunk().indices_in_pool()
            &&& net_effect(q.code) == net_effect(code)
        },
{
    let p = start(source, numbers, code, constants);
    lemma_advance_ready(p);
    if p.advance() is Ok {
        let first = p.advance()->Ok_0;
        lemma_declarations(first);
        if declarations(first) is Ok {
            lemma_keeps(p, first, declarations(first)->Ok_0);
            reveal(keeps);
        }
    }
}

} // verus!
