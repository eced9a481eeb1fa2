//! What compiling a source text gives, as a mathematical function.
//!
//! A [`Pass`] is the state of one pass over a source: where the scanner
//! stands, the two tokens at hand, the open scopes with their locals, and
//! the instructions and constants written so far. Each function here takes a
//! pass through one construct of the language and gives the pass that
//! results, or the first error.
//!
//! The language has statements `print e;`, `let x = e;`, `{ ... }` and `e;`.
//! Expressions are parsed by precedence climbing over the table of
//! [`crate::precedence`], and every binary operator associates to the left.

use vstd::prelude::*;
use crate::chunk::{net_effect, ChunkView, OpCode, OpCodeKind};
use crate::errors::{ErrorPlaceView, ParsingErrorView};
use crate::lexis::{lemma_scan, scan};
use crate::object::{string_kind, ObjectView};
use crate::precedence::{rule_of, ParseFn, Precedence};
use crate::token::{TokenType, TokenView};
use crate::value::ValueView;

verus! {

/// A local variable: the token that names it, the depth of the scope that
/// declares it, and whether its initializer is done. The index of a local in
/// the list of locals is its slot on the value stack.
pub struct LocalView {
    pub name: TokenView,
    pub depth: usize,
    pub is_initialized: bool,
}

/// The state of a pass over a source.
pub struct Pass {
    /// The source text.
    pub source: Seq<char>,
    /// The values of the number literals of the source, in order.
    pub numbers: Seq<u64>,
    /// How many of `numbers` have been taken.
    pub used: nat,
    /// Where the next scan starts.
    pub at: nat,
    /// The line there.
    pub line: nat,
    /// The token last consumed.
    pub previous: Option<TokenView>,
    /// The token ahead.
    pub current: Option<TokenView>,
    /// The number of open blocks.
    pub scope_depth: nat,
    /// The locals of the open blocks, oldest first.
    pub locals: Seq<LocalView>,
    /// The instructions written.
    pub code: Seq<OpCode>,
    /// The constants written.
    pub constants: Seq<ValueView>,
}

/// A pass, or the first error.
pub type Parsed = Result<Pass, ParsingErrorView>;

/// The error found at `token`.
pub open spec fn error_at(source: Seq<char>, token: TokenView, message: Seq<char>)
    -> ParsingErrorView {
    let from = if token.start <= source.len() {
        token.start as int
    } else {
        source.len() as int
    };
    let to = if token.start + token.length <= source.len() {
        token.start + token.length
    } else {
        source.len() as int
    };
    ParsingErrorView {
        line: token.line,
        place: match token.token_type {
            TokenType::EOF => ErrorPlaceView::End,
            TokenType::Error => ErrorPlaceView::Unformed,
            _ => ErrorPlaceView::Lexeme(source.subrange(from, to)),
        },
        message,
    }
}

impl Pass {
    /// The kind of the token ahead.
    pub open spec fn ahead(self) -> TokenType {
        self.current.unwrap().token_type
    }

    /// The kind of the token last consumed.
    pub open spec fn behind(self) -> TokenType {
        self.previous.unwrap().token_type
    }

    /// An error at the token last consumed.
    pub open spec fn error(self, message: Seq<char>) -> ParsingErrorView {
        error_at(self.source, self.previous.unwrap(), message)
    }

    /// An error at the token ahead.
    pub open spec fn error_ahead(self, message: Seq<char>) -> ParsingErrorView {
        error_at(self.source, self.current.unwrap(), message)
    }

    /// What is left to read: the characters that the scanner has not passed,
    /// and one more while the token ahead is not the end of the source.
    pub open spec fn rest(self) -> nat {
        let unread = if self.at <= self.source.len() {
            (self.source.len() - self.at) as nat
        } else {
            0
        };
        if self.current is Some && self.ahead() == TokenType::EOF {
            unread
        } else {
            unread + 1
        }
    }

    /// The token ahead is consumed and the next one scanned. A token that
    /// the scanner could not form is an error, with the scanner's message.
    pub open spec fn advance(self) -> Parsed {
        let s = scan(self.source, self.at as int, self.line as int);
        if s.token.token_type == TokenType::Error {
            Err(error_at(self.source, s.token, s.token.message.unwrap()))
        } else {
            Ok(
                Pass {
                    previous: self.current,
                    current: Some(s.token),
                    at: s.pos as nat,
                    line: s.line as nat,
                    ..self
                },
            )
        }
    }

    /// The token ahead must be of `kind` and is consumed.
    pub open spec fn consume(self, kind: TokenType, message: Seq<char>) -> Parsed {
        if self.ahead() == kind {
            self.advance()
        } else {
            Err(self.error_ahead(message))
        }
    }

    /// One more instruction, on the line of the token last consumed.
    pub open spec fn emit(self, kind: OpCodeKind) -> Pass {
        Pass { code: self.code.push(OpCode { kind, line: self.previous.unwrap().line }), ..self }
    }

    /// One more constant; its index is the length of the pool before.
    pub open spec fn add_const(self, value: ValueView) -> Pass {
        Pass { constants: self.constants.push(value), ..self }
    }

    /// A new constant and the instruction that loads it.
    pub open spec fn emit_const(self, value: ValueView) -> Pass {
        self.add_const(value).emit(OpCodeKind::Const { const_idx: self.constants.len() as usize })
    }

    /// The literal of the identifier last consumed.
    pub open spec fn identifier(self) -> Result<Seq<char>, ParsingErrorView> {
        if self.behind() != TokenType::IDENTIFIER {
            Err(self.error("Expected identifier"@))
        } else {
            match self.previous.unwrap().literal {
                Some(literal) => Ok(literal),
                None => Err(self.error("Expected literal"@)),
            }
        }
    }

    /// Leaving a block: one scope fewer, and every local of the scope left
    /// goes, with a `Pop` for its slot.
    pub open spec fn end_scope(self) -> Pass {
        Pass { scope_depth: (self.scope_depth - 1) as nat, ..self }.drop_locals()
    }

    /// The locals that lie deeper than the open scopes go, newest first, each
    /// with a `Pop`.
    pub open spec fn drop_locals(self) -> Pass
        decreases self.locals.len(),
    {
        if self.locals.len() > 0 && self.locals.last().depth > self.scope_depth {
            Pass { locals: self.locals.drop_last(), ..self.emit(OpCodeKind::Pop) }.drop_locals()
        } else {
            self
        }
    }

    /// Declaring the variable named by the token last consumed: in a block,
    /// a new local that is not yet initialized; at the top level, nothing.
    pub open spec fn declare_variable(self) -> Parsed {
        if self.scope_depth == 0 {
            Ok(self)
        } else if self.previous.unwrap().literal is None {
            Err(self.error("Expected literal"@))
        } else {
            Ok(
                Pass {
                    locals: self.locals.push(
                        LocalView {
                            name: self.previous.unwrap(),
                            depth: self.scope_depth as usize,
                            is_initialized: false,
                        },
                    ),
                    ..self
                },
            )
        }
    }

    /// The name of a declaration: an identifier is consumed and declared. At
    /// the top level its name becomes a constant, whose index is given; in a
    /// block the index is 0 and stands for nothing.
    pub open spec fn parse_variable_name(self, message: Seq<char>) -> Result<
        (Pass, usize),
        ParsingErrorView,
    > {
        match self.consume(TokenType::IDENTIFIER, message) {
            Err(e) => Err(e),
            Ok(named) => match named.declare_variable() {
                Err(e) => Err(e),
                Ok(declared) => {
                    if declared.scope_depth > 0 {
                        Ok((declared, 0))
                    } else {
                        match declared.identifier() {
                            Err(e) => Err(e),
                            Ok(name) => Ok(
                                (
                                    declared.add_const(ValueView::Identifier(name)),
                                    declared.constants.len() as usize,
                                ),
                            ),
                        }
                    }
                },
            },
        }
    }

    /// The end of a declaration: in a block the newest local is initialized;
    /// at the top level the global is defined.
    pub open spec fn define_global(self, name_idx: usize) -> Pass {
        if self.scope_depth > 0 {
            if self.locals.len() > 0 {
                Pass {
                    locals: self.locals.update(
                        self.locals.len() - 1,
                        LocalView { is_initialized: true, ..self.locals.last() },
                    ),
                    ..self
                }
            } else {
                self
            }
        } else {
            self.emit(OpCodeKind::DefineGlobal { name_idx })
        }
    }

    /// The slot of the newest local named `name` among the first `upto`.
    pub open spec fn find_local(self, name: Seq<char>, upto: int) -> Option<int>
        decreases upto,
    {
        if upto <= 0 {
            None
        } else if self.locals[upto - 1].name.literal == Some(name) {
            Some(upto - 1)
        } else {
            self.find_local(name, upto - 1)
        }
    }

    /// The slot that `name` refers to, if it names a local: the newest local
    /// of that name. To read a local inside its own initializer is an error.
    pub open spec fn resolve_local(self, name: Seq<char>) -> Result<
        Option<usize>,
        ParsingErrorView,
    > {
        if self.scope_depth == 0 {
            Ok(None)
        } else {
            match self.find_local(name, self.locals.len() as int) {
                None => Ok(None),
                Some(slot) => {
                    if self.locals[slot].is_initialized {
                        Ok(Some(slot as usize))
                    } else {
                        Err(self.error("Cannot read local variable in its own initializer"@))
                    }
                },
            }
        }
    }

    /// A number: the next of the values handed in becomes a constant. The
    /// pass ends in an error where they have run out.
    pub open spec fn number(self) -> Parsed {
        if self.used < self.numbers.len() {
            Ok(
                Pass { used: self.used + 1, ..self }.emit_const(
                    ValueView::Float(self.numbers[self.used as int]),
                ),
            )
        } else {
            Err(self.error("Expected the value of the number"@))
        }
    }

    /// A string: its literal becomes a string constant.
    pub open spec fn string(self) -> Parsed {
        match self.previous.unwrap().literal {
            Some(text) => Ok(
                self.emit_const(ValueView::Object(ObjectView { kind: string_kind(), text })),
            ),
            None => Err(self.error("Expected literal"@)),
        }
    }

    /// `true`, `false` or `null`.
    pub open spec fn literal(self) -> Pass {
        self.emit(
            match self.behind() {
                TokenType::FALSE => OpCodeKind::False,
                TokenType::TRUE => OpCodeKind::True,
                _ => OpCodeKind::Null,
            },
        )
    }
}

/// The instruction of a binary operator, after its two operands. `!=`, `>=`
/// and `<=` use the instruction of `==`, `<` and `>`.
pub open spec fn binary_op(operator: TokenType) -> Option<OpCodeKind> {
    match operator {
        TokenType::PLUS => Some(OpCodeKind::Add),
        TokenType::MINUS => Some(OpCodeKind::Sub),
        TokenType::SLASH => Some(OpCodeKind::Div),
        TokenType::STAR => Some(OpCodeKind::Mul),
        TokenType::BangEqual | TokenType::EqualEqual => Some(OpCodeKind::Eq),
        TokenType::GREATER | TokenType::LessEqual => Some(OpCodeKind::Gt),
        TokenType::LESS | TokenType::GreaterEqual => Some(OpCodeKind::Lt),
        _ => None,
    }
}

/// Whether a binary operator is compiled as the negation of another: its
/// instruction is followed by `Not`.
pub open spec fn is_negated(operator: TokenType) -> bool {
    operator == TokenType::BangEqual || operator == TokenType::GreaterEqual || operator
        == TokenType::LessEqual
}

/// What a unary operator compiles to, after its operand.
pub open spec fn unary_code(operator: TokenType) -> OpCodeKind {
    if operator == TokenType::MINUS {
        OpCodeKind::Negate
    } else {
        OpCodeKind::Not
    }
}

/// Consuming a token brings a pass nearer to the end of the source, unless
/// the token is the end itself.
pub proof fn lemma_advance(p: Pass)
    ensures
        p.advance() matches Ok(q) ==> {
            &&& q.rest() <= p.rest()
            &&& !(p.current is Some && p.ahead() == TokenType::EOF) ==> q.rest() < p.rest()
            &&& q.previous == p.current
            &&& q.current is Some
            &&& q.ahead() != TokenType::Error
        },
{
    if p.at <= p.source.len() {
        lemma_scan(p.source, p.at as int, p.line as int);
    } else {
        assert(crate::lexis::skip_blank(p.source, p.at as int, p.line as int) == (
            p.at as int,
            p.line as int,
        ));
    }
}

/// An expression at precedence `min` or tighter.
///
/// One token is consumed, and it must be one that starts an expression. Then,
/// as long as the token ahead is a binary operator that binds at least as
/// tightly as `min`, it is consumed with its right operand. An `=` that is
/// left over where an assignment could have stood is an error.
pub open spec fn parse_precedence(p: Pass, min: Precedence) -> Parsed
    decreases p.rest(), 4int, 0int,
{
    match p.advance() {
        Err(e) => Err(e),
        Ok(first) => match rule_of(first.behind()).prefix {
            None => Err(first.error("Expected expression"@)),
            Some(prefix) => {
                let can_assign = min.rank() <= Precedence::Assignment.rank();
                proof {
                    lemma_advance(p);
                }
                match apply_rule(first, prefix, can_assign) {
                    Err(e) => Err(e),
                    Ok(operand) => {
                        if operand.rest() <= first.rest() {
                            operators(operand, min, can_assign)
                        } else {
                            Ok(operand)
                        }
                    },
                }
            },
        },
    }
}

/// The end of an expression: an `=` that is left over where an assignment
/// could have stood is consumed and is an error.
pub open spec fn end_expression(done: Pass, can_assign: bool) -> Parsed {
    if can_assign && done.ahead() == TokenType::EQUAL {
        match done.advance() {
            Err(e) => Err(e),
            Ok(past) => Err(past.error("Invalid assignment target"@)),
        }
    } else {
        Ok(done)
    }
}

/// What follows the first operand of an expression: the binary operators
/// with their right operands, then the end of the expression.
pub open spec fn operators(p: Pass, min: Precedence, can_assign: bool) -> Parsed
    decreases p.rest(), 3int, 1int,
{
    match infix_loop(p, min, can_assign) {
        Err(e) => Err(e),
        Ok(done) => end_expression(done, can_assign),
    }
}

/// The binary operators that follow an operand, with their right operands.
pub open spec fn infix_loop(p: Pass, min: Precedence, can_assign: bool) -> Parsed
    decreases p.rest(), 3int, 0int,
{
    if min.rank() <= rule_of(p.ahead()).precedence.rank() && min != Precedence::NONE {
        match p.advance() {
            Err(e) => Err(e),
            Ok(operator) => {
                proof {
                    lemma_advance(p);
                }
                match rule_of(operator.behind()).infix {
                    None => infix_loop(operator, min, can_assign),
                    Some(infix) => match apply_rule(operator, infix, can_assign) {
                        Err(e) => Err(e),
                        Ok(operand) => {
                            if operand.rest() <= operator.rest() {
                                infix_loop(operand, min, can_assign)
                            } else {
                                Ok(operand)
                            }
                        },
                    },
                }
            },
        }
    } else {
        Ok(p)
    }
}

/// What follows the token last consumed, by its parse rule.
pub open spec fn apply_rule(p: Pass, rule: ParseFn, can_assign: bool) -> Parsed
    decreases p.rest(), 11int, 0int,
{
    match rule {
        ParseFn::Grouping => grouping(p),
        ParseFn::Unary => unary(p),
        ParseFn::Binary => binary(p),
        ParseFn::Variable => variable(p, can_assign),
        ParseFn::String => p.string(),
        ParseFn::Number => p.number(),
        ParseFn::Literal => Ok(p.literal()),
    }
}

/// An expression in parentheses, after the opening one.
pub open spec fn grouping(p: Pass) -> Parsed
    decreases p.rest(), 10int, 0int,
{
    match expression(p) {
        Err(e) => Err(e),
        Ok(inner) => inner.consume(TokenType::RightParen, "Expected ')'"@),
    }
}

/// The operand of a unary operator, then the operator's instruction.
pub open spec fn unary(p: Pass) -> Parsed
    decreases p.rest(), 10int, 0int,
{
    match parse_precedence(p, Precedence::Unary) {
        Err(e) => Err(e),
        Ok(operand) => Ok(operand.emit(unary_code(p.behind()))),
    }
}

/// The right operand of a binary operator, one level tighter than the
/// operator, then the operator's instructions.
pub open spec fn binary(p: Pass) -> Parsed
    decreases p.rest(), 10int, 0int,
{
    match parse_precedence(p, rule_of(p.behind()).precedence.next()) {
        Err(e) => Err(e),
        Ok(operand) => Ok(
            match binary_op(p.behind()) {
                None => operand,
                Some(kind) => {
                    if is_negated(p.behind()) {
                        operand.emit(kind).emit(OpCodeKind::Not)
                    } else {
                        operand.emit(kind)
                    }
                },
            },
        ),
    }
}

/// A variable, read or assigned.
pub open spec fn variable(p: Pass, can_assign: bool) -> Parsed
    decreases p.rest(), 10int, 0int,
{
    match p.identifier() {
        Err(e) => Err(e),
        Ok(name) => named_variable(p, name, can_assign),
    }
}

/// The variable `name`, read or assigned. A name that resolves to a local
/// is read and written by its slot; any other name is a global, and a
/// constant with the name is added. Where an assignment may stand and `=`
/// follows, the value is compiled and then written; otherwise the variable
/// is read.
pub open spec fn named_variable(p: Pass, name: Seq<char>, can_assign: bool) -> Parsed
    decreases p.rest(), 9int, 0int,
{
    match p.resolve_local(name) {
        Err(e) => Err(e),
        Ok(slot) => {
            let index = p.constants.len() as usize;
            let (get_op, set_op, named) = match slot {
                Some(name_idx) => (
                    OpCodeKind::ReadLocal { name_idx },
                    OpCodeKind::SetLocal { name_idx },
                    p,
                ),
                None => (
                    OpCodeKind::ReadGlobal { name_idx: index },
                    OpCodeKind::SetGlobal { name_idx: index },
                    p.add_const(ValueView::Identifier(name)),
                ),
            };
            if can_assign && named.ahead() == TokenType::EQUAL {
                match named.advance() {
                    Err(e) => Err(e),
                    Ok(past) => {
                        proof {
                            lemma_advance(named);
                        }
                        match expression(past) {
                            Err(e) => Err(e),
                            Ok(value) => Ok(value.emit(set_op)),
                        }
                    },
                }
            } else {
                Ok(named.emit(get_op))
            }
        },
    }
}

/// An expression.
pub open spec fn expression(p: Pass) -> Parsed
    decreases p.rest(), 5int, 0int,
{
    parse_precedence(p, Precedence::Assignment)
}

/// `print e;` after `print`.
pub open spec fn print_statement(p: Pass) -> Parsed {
    match expression(p) {
        Err(e) => Err(e),
        Ok(value) => match value.consume(TokenType::SEMICOLON, "Expected ';'"@) {
            Err(e) => Err(e),
            Ok(end) => Ok(end.emit(OpCodeKind::Print)),
        },
    }
}

/// `e;`: the value is computed and dropped.
pub open spec fn expr_statement(p: Pass) -> Parsed {
    match expression(p) {
        Err(e) => Err(e),
        Ok(value) => match value.consume(TokenType::SEMICOLON, "Expected ';'"@) {
            Err(e) => Err(e),
            Ok(end) => Ok(end.emit(OpCodeKind::Pop)),
        },
    }
}

/// The end of a `let` statement, after the value: the semicolon, then the
/// variable is defined.
pub open spec fn end_var_statement(valued: Pass, global: usize) -> Parsed {
    match valued.consume(TokenType::SEMICOLON, "Expected ';' after variable declaration"@) {
        Err(e) => Err(e),
        Ok(end) => Ok(end.define_global(global)),
    }
}

/// `let x = e;` or `let x;` after `let`. Without an initializer the variable
/// is `null`.
pub open spec fn var_statement(p: Pass) -> Parsed {
    match p.parse_variable_name("Expected variable name"@) {
        Err(e) => Err(e),
        Ok((named, global)) => {
            if named.ahead() == TokenType::EQUAL {
                match named.advance() {
                    Err(e) => Err(e),
                    Ok(past) => match expression(past) {
                        Err(e) => Err(e),
                        Ok(valued) => end_var_statement(valued, global),
                    },
                }
            } else {
                end_var_statement(named.emit(OpCodeKind::Null), global)
            }
        },
    }
}

/// The declarations of a block up to its closing brace, and the brace.
pub open spec fn block(p: Pass) -> Parsed
    decreases p.rest(), 9int, 0int,
{
    if p.ahead() != TokenType::RightBrace && p.ahead() != TokenType::EOF {
        match declaration(p) {
            Err(e) => Err(e),
            Ok(next) => {
                if next.rest() < p.rest() {
                    block(next)
                } else {
                    Ok(next)
                }
            },
        }
    } else {
        p.consume(TokenType::RightBrace, "Expected '}' at the end of block"@)
    }
}

/// A statement.
pub open spec fn statement(p: Pass) -> Parsed
    decreases p.rest(), 7int, 0int,
{
    if p.ahead() == TokenType::PRINT {
        match p.advance() {
            Err(e) => Err(e),
            Ok(past) => print_statement(past),
        }
    } else if p.ahead() == TokenType::VAR {
        match p.advance() {
            Err(e) => Err(e),
            Ok(past) => var_statement(past),
        }
    } else if p.ahead() == TokenType::LeftBrace {
        match p.advance() {
            Err(e) => Err(e),
            Ok(past) => {
                proof {
                    lemma_advance(p);
                }
                match block(Pass { scope_depth: past.scope_depth + 1, ..past }) {
                    Err(e) => Err(e),
                    Ok(end) => Ok(end.end_scope()),
                }
            },
        }
    } else {
        expr_statement(p)
    }
}

/// A declaration: for now, a statement.
pub open spec fn declaration(p: Pass) -> Parsed
    decreases p.rest(), 8int, 0int,
{
    statement(p)
}

/// The declarations of a program up to the end of the source.
pub open spec fn declarations(p: Pass) -> Parsed
    decreases p.rest(), 10int, 0int,
{
    if p.ahead() == TokenType::EOF {
        p.advance()
    } else {
        match declaration(p) {
            Err(e) => Err(e),
            Ok(next) => {
                if next.rest() < p.rest() {
                    declarations(next)
                } else {
                    Ok(next)
                }
            },
        }
    }
}

/// A whole program: the first token is scanned, then the declarations
/// follow up to the end of the source.
pub open spec fn program(p: Pass) -> Parsed {
    match p.advance() {
        Err(e) => Err(e),
        Ok(first) => declarations(first),
    }
}

/// The pass that starts on `source`, with `code` and `constants` already
/// written.
pub open spec fn start(
    source: Seq<char>,
    numbers: Seq<u64>,
    code: Seq<OpCode>,
    constants: Seq<ValueView>,
) -> Pass {
    Pass {
        source,
        numbers,
        used: 0,
        at: 0,
        line: 1,
        previous: None,
        current: None,
        scope_depth: 0,
        locals: Seq::<LocalView>::empty(),
        code,
        constants,
    }
}

/// `a` is the beginning of `b`.
pub open spec fn extends<T>(a: Seq<T>, b: Seq<T>) -> bool {
    &&& a.len() <= b.len()
    &&& forall|i: int| 0 <= i < a.len() ==> #[trigger] b[i] == a[i]
}

impl Pass {
    /// The bytecode written so far.
    pub open spec fn chunk(self) -> ChunkView {
        ChunkView { code: self.code, constants: self.constants }
    }

    /// The token lies inside the source, on a line from 1 on.
    pub open spec fn fits(self, token: TokenView) -> bool {
        token.line >= 1 && token.start + token.length <= self.source.len()
    }

    /// What holds of a pass between any two of its steps.
    pub open spec fn steady(self) -> bool {
        &&& self.source.len() < usize::MAX
        &&& self.at <= self.source.len()
        &&& 1 <= self.line <= self.at + 1
        &&& self.used <= self.numbers.len()
        &&& match self.current {
            Some(token) => {
                &&& self.fits(token)
                &&& token.start + token.length <= self.at
                &&& token.token_type != TokenType::Error
                &&& token.token_type != TokenType::EOF ==> token.length >= 1
                &&& self.scope_depth <= token.start
            },
            None => self.scope_depth == 0,
        }
        &&& self.previous matches Some(token) ==> self.fits(token)
        &&& forall|i: int|
            0 <= i < self.locals.len() ==> 1 <= (#[trigger] self.locals[i]).depth
                <= self.scope_depth
    }

    /// A steady pass with a token ahead.
    pub open spec fn ready(self) -> bool {
        self.steady() && self.current is Some
    }

    /// A ready pass that has consumed a token.
    pub open spec fn primed(self) -> bool {
        self.ready() && self.previous is Some
    }

    /// The net stack effect of the instructions written.
    pub open spec fn net(self) -> int {
        net_effect(self.code)
    }
}

/// What every step of a pass keeps: the source and the numbers, what was
/// written before, and the validity of what is written.
#[verifier::opaque]
pub open spec fn keeps(a: Pass, b: Pass) -> bool {
    &&& b.source == a.source
    &&& b.numbers == a.numbers
    &&& extends(a.code, b.code)
    &&& extends(a.constants, b.constants)
    &&& a.chunk().lines_positive() ==> b.chunk().lines_positive()
    &&& a.chunk().indices_in_pool() ==> b.chunk().indices_in_pool()
}

/// Whatever a pass has kept up to `a`, it has kept up to `b`; and the
/// constant pool has not shrunk.
pub open spec fn frames(a: Pass, b: Pass) -> bool {
    &&& a.constants.len() <= b.constants.len()
    &&& forall|origin: Pass| #[trigger] keeps(origin, a) ==> keeps(origin, b)
}

/// A pass that leaves what is written as it is keeps.
pub proof fn lemma_keeps_same(a: Pass, b: Pass)
    requires
        b.source == a.source,
        b.numbers == a.numbers,
        b.code == a.code,
        b.constants == a.constants,
    ensures
        keeps(a, b),
        frames(a, b),
{
    reveal(keeps);
}

/// A step that keeps, keeps what was kept before it.
pub proof fn lemma_frames(a: Pass, b: Pass)
    requires
        keeps(a, b),
    ensures
        frames(a, b),
{
    reveal(keeps);
    assert forall|origin: Pass| #[trigger] keeps(origin, a) implies keeps(origin, b) by {
        lemma_keeps(origin, a, b);
    }
}

/// What holds after an expression, or a part of one, that starts in `a` and
/// ends in `b`: the scopes and locals are as they were, and the instructions
/// written leave `delta` more values on the stack.
pub open spec fn valued(a: Pass, b: Pass, delta: int) -> bool {
    &&& b.primed()
    &&& b.rest() <= a.rest()
    &&& b.scope_depth == a.scope_depth
    &&& b.locals == a.locals
    &&& b.net() == a.net() + delta
}

/// What holds after a statement that starts in `a` and ends in `b`: the
/// pass has moved on, the scopes are as they were, there may be new locals
/// of the innermost scope, and the instructions written leave one value on
/// the stack for each of them.
pub open spec fn stated(a: Pass, b: Pass) -> bool {
    &&& b.primed()
    &&& b.rest() < a.rest()
    &&& b.scope_depth == a.scope_depth
    &&& extends(a.locals, b.locals)
    &&& forall|i: int|
        a.locals.len() <= i < b.locals.len() ==> (#[trigger] b.locals[i]).depth == b.scope_depth
    &&& b.net() - a.net() == b.locals.len() - a.locals.len()
}

/// Steps that keep, taken one after the other, keep.
pub proof fn lemma_keeps(a: Pass, b: Pass, c: Pass)
    requires
        keeps(a, b),
        keeps(b, c),
    ensures
        keeps(a, c),
{
    reveal(keeps);
    assert forall|i: int| 0 <= i < a.code.len() implies #[trigger] c.code[i] == a.code[i] by {
        assert(b.code[i] == a.code[i]);
    }
    assert forall|i: int| 0 <= i < a.constants.len() implies #[trigger] c.constants[i]
        == a.constants[i] by {
        assert(b.constants[i] == a.constants[i]);
    }
}

} // verus!
