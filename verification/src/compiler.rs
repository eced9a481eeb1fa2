//! The compiler: one pass over the source that writes bytecode as it parses.

use vstd::prelude::*;
use crate::chunk::{net_effect, Chunk, OpCode, OpCodeKind};
use crate::errors::{ErrorPlace, ParsingError};
use crate::lexis::lemma_scan;
use crate::parser::{token_view, Parser};
use crate::precedence::{get_rule, rule_of, ParseFn, Precedence};
use crate::scanner::Scanner;
use crate::string::StringObject;
use crate::syntax::{
    apply_rule, binary, binary_op, block, declaration, declarations, error_at, expr_statement,
    expression, extends, frames, grouping, keeps, lemma_advance, lemma_frames,
    lemma_keeps_same, named_variable, operators, parse_precedence, print_statement, program,
    start, stated, statement, unary, valued, var_statement, variable, LocalView, Parsed, Pass,
};
use crate::token::{Token, TokenType};
use crate::value::{Value, ValueView};

verus! {

/// A local variable of an open block.
#[derive(Debug)]
pub struct Local {
    pub name: Token,
    pub depth: usize,
    pub is_initialized: bool,
}

impl View for Local {
    type V = LocalView;

    open spec fn view(&self) -> LocalView {
        LocalView { name: self.name@, depth: self.depth, is_initialized: self.is_initialized }
    }
}

impl DeepView for Local {
    type V = LocalView;

    open spec fn deep_view(&self) -> LocalView {
        self@
    }
}

impl Local {
    pub fn new(name: Token, depth: usize, is_initialized: bool) -> (r: Local)
        ensures
            r == (Local { name, depth, is_initialized }),
    {
        Self { name, depth, is_initialized }
    }

    pub fn mark_initialized(&mut self)
        ensures
            *final(self) == (Local { is_initialized: true, ..*old(self) }),
    {
        self.is_initialized = true;
    }
}

/// A compiler over one source text.
pub struct Compiler {
    parser: Parser,
    scanner: Scanner,
    chunk: Chunk,
    numbers: Vec<u64>,
    used: usize,
    scope_depth: usize,
    locals: Vec<Local>,
}

impl View for Compiler {
    type V = Pass;

    closed spec fn view(&self) -> Pass {
        Pass {
            source: self.scanner@.source,
            numbers: self.numbers@,
            used: self.used as nat,
            at: self.scanner@.current as nat,
            line: self.scanner@.line as nat,
            previous: token_view(self.parser.previous),
            current: token_view(self.parser.current),
            scope_depth: self.scope_depth as nat,
            locals: self.locals.deep_view(),
            code: self.chunk@.code,
            constants: self.chunk@.constants,
        }
    }
}

/// Whether what a step of the compiler returned and left behind is what the
/// grammar says.
pub open spec fn agrees(r: Result<(), ParsingError>, after: Pass, expected: Parsed) -> bool {
    match expected {
        Ok(pass) => r is Ok && after == pass,
        Err(e) => r is Err && r->Err_0@ == e,
    }
}

impl Compiler {
    /// A compiler at the start of `source`. `numbers` holds the values of the
    /// number literals of the source as IEEE-754 bit patterns, in the order
    /// in which the literals stand in the source.
    pub fn from_source(source: &str, numbers: Vec<u64>) -> (r: Compiler)
        requires
            source@.len() < usize::MAX,
        ensures
            r@ == start(source@, numbers@, Seq::<OpCode>::empty(), Seq::<ValueView>::empty()),
    {
        let scanner = Scanner::new(source);
        let parser = Parser::new();
        let r = Self {
            parser,
            scanner,
            chunk: Chunk::new(),
            numbers,
            used: 0,
            scope_depth: 0,
            locals: Vec::new(),
        };
        assert(r.locals.deep_view() =~= Seq::<LocalView>::empty());
        r
    }

    /// Compiles the whole source onto the end of `chunk`.
    ///
    /// What is written is what [`program`] says, and the pass stops at the
    /// first error, which is returned. Whether it succeeds or not, what the
    /// chunk held stays in front, and a chunk whose lines and constant
    /// indices were in order stays so. After a success the instructions
    /// written leave the depth of the value stack as they found it.
    pub fn compile(&mut self, chunk: &mut Chunk) -> (r: Result<(), ParsingError>)
        requires
            old(self)@ == start(
                old(self)@.source,
                old(self)@.numbers,
                Seq::<OpCode>::empty(),
                Seq::<ValueView>::empty(),
            ),
            old(self)@.source.len() < usize::MAX,
        ensures
            match program(
                start(
                    old(self)@.source,
                    old(self)@.numbers,
                    old(chunk)@.code,
                    old(chunk)@.constants,
                ),
            ) {
                Ok(pass) => r is Ok && final(chunk)@ == pass.chunk(),
                Err(e) => r is Err && r->Err_0@ == e,
            },
            extends(old(chunk)@.code, final(chunk)@.code),
            extends(old(chunk)@.constants, final(chunk)@.constants),
            old(chunk)@.lines_positive() ==> final(chunk)@.lines_positive(),
            old(chunk)@.indices_in_pool() ==> final(chunk)@.indices_in_pool(),
            r is Ok ==> net_effect(final(chunk)@.code) == net_effect(old(chunk)@.code),
    {
        core::mem::swap(&mut self.chunk, chunk);
        let ghost begin = self@;
        proof {
            assert(begin.locals =~= Seq::<LocalView>::empty());
            assert(begin == start(
                old(self)@.source,
                old(self)@.numbers,
                old(chunk)@.code,
                old(chunk)@.constants,
            ));
            lemma_keeps_same(begin, begin);
        }
        let r = self.run();
        proof {
            assert(keeps(begin, self@));
            reveal(keeps);
            assert(self@.chunk() == self.chunk@);
        }
        core::mem::swap(&mut self.chunk, chunk);
        r
    }

    /// The pass itself, on the chunk that the compiler holds.
    fn run(&mut self) -> (r: Result<(), ParsingError>)
        requires
            old(self)@ == start(
                old(self)@.source,
                old(self)@.numbers,
                old(self)@.code,
                old(self)@.constants,
            ),
            old(self)@.source.len() < usize::MAX,
        ensures
            agrees(r, final(self)@, program(old(self)@)),
            frames(old(self)@, final(self)@),
            r is Ok ==> final(self)@.net() == old(self)@.net(),
    {
        self.advance()?;
        while !self.check(TokenType::EOF)
            invariant
                self@.ready(),
                self@.scope_depth == 0,
                self@.locals.len() == 0,
                self@.net() == old(self)@.net(),
                frames(old(self)@, self@),
                declarations(self@) == program(old(self)@),
            decreases self@.rest(),
        {
            self.declaration()?;
            proof {
                if self@.locals.len() > 0 {
                    let newest = self@.locals[0];
                    assert(newest.depth == self@.scope_depth);
                    assert(1 <= newest.depth);
                }
            }
        }
        self.advance()
    }

    fn previous(&self) -> (r: Option<&Token>)
        ensures
            r.is_some() == self@.previous.is_some(),
            r matches Some(t) ==> Some(t@) == self@.previous,
    {
        self.parser.previous.as_ref()
    }

    fn current(&self) -> (r: Option<&Token>)
        ensures
            r.is_some() == self@.current.is_some(),
            r matches Some(t) ==> Some(t@) == self@.current,
    {
        self.parser.current.as_ref()
    }

    /// Consumes the token ahead and scans the next.
    fn advance(&mut self) -> (r: Result<(), ParsingError>)
        requires
            old(self)@.steady(),
        ensures
            agrees(r, final(self)@, old(self)@.advance()),
            frames(old(self)@, final(self)@),
            final(self)@.code == old(self)@.code,
            final(self)@.constants == old(self)@.constants,
            r is Ok ==> {
                &&& final(self)@.ready()
                &&& final(self)@.previous == old(self)@.current
                &&& final(self)@.rest() <= old(self)@.rest()
                &&& !(old(self)@.current is Some && old(self)@.ahead() == TokenType::EOF)
                    ==> final(self)@.rest() < old(self)@.rest()
                &&& old(self)@.current matches Some(token) ==> token.start + token.length
                    <= final(self)@.current.unwrap().start
            },
    {
        proof {
            lemma_scan(self@.source, self@.at as int, self@.line as int);
            lemma_advance(self@);
        }
        let new_token = self.scanner.scan_token();
        match new_token.token_type {
            TokenType::Error => {
                let message = match &new_token.message {
                    Some(m) => m.clone(),
                    None => String::new(),
                };
                let e = self.error_at(&new_token, message);
                self.parser.previous = self.parser.current.take();
                self.parser.current = Some(new_token);
                proof {
                    lemma_keeps_same(old(self)@, self@);
                }
                Err(e)
            },
            _ => {
                self.parser.previous = self.parser.current.take();
                self.parser.current = Some(new_token);
                proof {
                    lemma_keeps_same(old(self)@, self@);
                }
                Ok(())
            },
        }
    }

    fn error_at_current(&self, message: String) -> (r: ParsingError)
        requires
            self@.ready(),
        ensures
            r@ == self@.error_ahead(message@),
    {
        match self.current() {
            Some(token) => self.error_at(token, message),
            None => ParsingError { line: 0, place: ErrorPlace::End, message },
        }
    }

    fn error(&self, message: String) -> (r: ParsingError)
        requires
            self@.primed(),
        ensures
            r@ == self@.error(message@),
    {
        match self.previous() {
            Some(token) => self.error_at(token, message),
            None => ParsingError { line: 0, place: ErrorPlace::End, message },
        }
    }

    /// The error found at `token`.
    fn error_at(&self, token: &Token, message: String) -> (r: ParsingError)
        requires
            token.start + token.length <= usize::MAX,
        ensures
            r@ == error_at(self@.source, token@, message@),
    {
        let place = match token.token_type {
            TokenType::EOF => ErrorPlace::End,
            TokenType::Error => ErrorPlace::Unformed,
            _ => ErrorPlace::Lexeme(
                self.scanner.substr(token.start, token.start + token.length),
            ),
        };
        ParsingError { line: token.line, place, message }
    }

    fn consume(&mut self, token_type: TokenType, message: String) -> (r: Result<
        (),
        ParsingError,
    >)
        requires
            old(self)@.ready(),
        ensures
            agrees(r, final(self)@, old(self)@.consume(token_type, message@)),
            frames(old(self)@, final(self)@),
            r is Ok ==> {
                &&& final(self)@.primed()
                &&& final(self)@.rest() <= old(self)@.rest()
                &&& final(self)@.behind() == token_type
                &&& final(self)@ == old(self)@.advance()->Ok_0
            },
    {
        if self.check(token_type) {
            self.advance()
        } else {
            proof {
                lemma_keeps_same(old(self)@, self@);
            }
            Err(self.error_at_current(message))
        }
    }

    /// Writes an instruction, on the line of the token last consumed.
    fn emit_op_code(&mut self, kind: OpCodeKind)
        requires
            old(self)@.primed(),
            kind.reads_pool() ==> kind.operand().unwrap() < old(self)@.constants.len(),
        ensures
            final(self)@ == old(self)@.emit(kind),
            frames(old(self)@, final(self)@),
            final(self)@.primed(),
            final(self)@.net() == old(self)@.net() + kind.effect(),
            final(self)@.rest() == old(self)@.rest(),
    {
        let line = self.line();
        self.chunk.push(OpCode::new(kind, line));
        proof {
            assert(self@.code.drop_last() =~= old(self)@.code);
            assert(keeps(old(self)@, self@)) by {
                reveal(keeps);
            }
            lemma_frames(old(self)@, self@);
        }
    }

    fn emit_const(&mut self, value: Value)
        requires
            old(self)@.primed(),
        ensures
            final(self)@ == old(self)@.emit_const(value@),
            frames(old(self)@, final(self)@),
            final(self)@.primed(),
            final(self)@.net() == old(self)@.net() + 1,
            final(self)@.rest() == old(self)@.rest(),
    {
        let const_idx = self.make_const(value);
        let ghost mid = self@;
        self.emit_op_code(OpCodeKind::Const { const_idx });
    }

    /// Adds a constant and returns its index.
    fn make_const(&mut self, value: Value) -> (r: usize)
        ensures
            r == old(self)@.constants.len(),
            final(self)@ == old(self)@.add_const(value@),
            frames(old(self)@, final(self)@),
            old(self)@.steady() ==> final(self)@.steady(),
    {
        let r = self.chunk.push_const(value);
        proof {
            assert(keeps(old(self)@, self@)) by {
                reveal(keeps);
            }
            lemma_frames(old(self)@, self@);
        }
        r
    }

    /// The line of the token last consumed.
    fn line(&self) -> (r: usize)
        requires
            self@.previous is Some,
        ensures
            r == self@.previous.unwrap().line,
    {
        match self.previous() {
            Some(token) => token.line,
            None => 0,
        }
    }

    /// The literal of the identifier last consumed.
    fn previous_string_literal(&self) -> (r: Result<String, ParsingError>)
        requires
            self@.primed(),
        ensures
            match self@.identifier() {
                Ok(name) => r is Ok && r->Ok_0@ == name,
                Err(e) => r is Err && r->Err_0@ == e,
            },
    {
        match self.previous() {
            Some(token) => {
                if token.token_type != TokenType::IDENTIFIER {
                    return Err(self.error(String::from_str("Expected identifier")));
                }
                match &token.literal {
                    Some(literal) => Ok(literal.clone()),
                    None => Err(self.error(String::from_str("Expected literal"))),
                }
            },
            None => Err(self.error(String::from_str("Expected identifier"))),
        }
    }

    /// Whether the token ahead is of the given kind.
    fn check(&self, token_type: TokenType) -> (r: bool)
        requires
            self@.current is Some,
        ensures
            r == (self@.ahead() == token_type),
    {
        match self.current() {
            Some(token) => token.token_type == token_type,
            None => false,
        }
    }

    /// Consumes the token ahead if it is of the given kind.
    fn matches(&mut self, token_type: TokenType) -> (r: Result<bool, ParsingError>)
        requires
            old(self)@.ready(),
        ensures
            frames(old(self)@, final(self)@),
            old(self)@.ahead() != token_type ==> r == Ok::<bool, ParsingError>(false) && final(self)@ == old(self)@,
            old(self)@.ahead() == token_type ==> match old(self)@.advance() {
                Ok(pass) => r == Ok::<bool, ParsingError>(true) && final(self)@ == pass
                    && final(self)@.primed(),
                Err(e) => r is Err && r->Err_0@ == e,
            },
            r is Ok ==> final(self)@.rest() <= old(self)@.rest(),
            r == Ok::<bool, ParsingError>(true) && token_type != TokenType::EOF ==> final(self)@.rest()
                < old(self)@.rest(),
            r == Ok::<bool, ParsingError>(true) ==> old(self)@.current.unwrap().start + old(
                self,
            )@.current.unwrap().length <= final(self)@.current.unwrap().start,
    {
        if !self.check(token_type) {
            proof {
                lemma_keeps_same(old(self)@, self@);
            }
            Ok(false)
        } else {
            self.advance()?;
            Ok(true)
        }
    }

    fn declaration(&mut self) -> (r: Result<(), ParsingError>)
        requires
            old(self)@.ready(),
        ensures
            agrees(r, final(self)@, declaration(old(self)@)),
            frames(old(self)@, final(self)@),
            r is Ok ==> stated(old(self)@, final(self)@),
        decreases old(self)@.rest(), 8int,
    {
        self.statement()
    }

    fn statement(&mut self) -> (r: Result<(), ParsingError>)
        requires
            old(self)@.ready(),
        ensures
            agrees(r, final(self)@, statement(old(self)@)),
            frames(old(self)@, final(self)@),
            r is Ok ==> stated(old(self)@, final(self)@),
            r is Ok && old(self)@.ahead() == TokenType::LeftBrace ==> final(self)@.locals == old(self)@.locals,
        decreases old(self)@.rest(), 7int,
    {
        if self.matches(TokenType::PRINT)? {
            let ghost mid = self@;
            let r = self.print_statement();
            r
        } else if self.matches(TokenType::VAR)? {
            let ghost mid = self@;
            let r = self.var_statement();
            r
        } else if self.matches(TokenType::LeftBrace)? {
            self.begin_scope();
            let ghost mid = self@;
            let r = self.block();
            r?;
            let ghost inner = self@;
            proof {
                assert forall|i: int| 0 <= i < old(self)@.locals.len() implies (
                #[trigger] inner.locals[i]).depth < inner.scope_depth by {
                    assert(inner.locals[i] == old(self)@.locals[i]);
                }
            }
            self.end_scope(Ghost(old(self)@.locals.len() as int));
            proof {
                assert(self@.locals =~= old(self)@.locals);
            }
            Ok(())
        } else {
            self.expr_statement()
        }
    }

    /// The newest local, if there is one.
    fn last_local(&self) -> (r: Option<&Local>)
        ensures
            self@.locals.len() == 0 ==> r.is_none(),
            self@.locals.len() > 0 ==> r.is_some() && r.unwrap()@ == self@.locals.last(),
    {
        let local_count = self.local_count();
        if local_count == 0 {
            return None;
        }
        Some(&self.locals[local_count - 1])
    }

    fn begin_scope(&mut self)
        requires
            old(self)@.primed(),
            old(self)@.scope_depth < old(self)@.current.unwrap().start,
        ensures
            final(self)@ == (Pass { scope_depth: old(self)@.scope_depth + 1, ..old(self)@ }),
            final(self)@.primed(),
            frames(old(self)@, final(self)@),
    {
        self.scope_depth += 1;
        proof {
            lemma_keeps_same(old(self)@, self@);
        }
    }

    fn local_count(&self) -> (r: usize)
        ensures
            r == self@.locals.len(),
    {
        self.locals.len()
    }

    /// Leaves a block: exactly the locals of the block go, newest first,
    /// each with a `Pop`. `outer` is the number of locals that the blocks
    /// around it hold.
    fn end_scope(&mut self, Ghost(outer): Ghost<int>)
        requires
            old(self)@.primed(),
            old(self)@.scope_depth > 0,
            0 <= outer <= old(self)@.locals.len(),
            forall|i: int|
                0 <= i < outer ==> (#[trigger] old(self)@.locals[i]).depth < old(
                    self,
                )@.scope_depth,
            forall|i: int|
                outer <= i < old(self)@.locals.len() ==> (#[trigger] old(self)@.locals[i]).depth
                    == old(self)@.scope_depth,
        ensures
            final(self)@ == old(self)@.end_scope(),
            frames(old(self)@, final(self)@),
            final(self)@.primed(),
            final(self)@.rest() == old(self)@.rest(),
            final(self)@.scope_depth == old(self)@.scope_depth - 1,
            final(self)@.locals == old(self)@.locals.take(outer),
            final(self)@.net() == old(self)@.net() - (old(self)@.locals.len() - outer),
    {
        self.scope_depth -= 1;
        let ghost begin = self@;
        proof {
            lemma_keeps_same(old(self)@, self@);
        }
        assert(self.locals.deep_view().take(self.locals.len() as int) =~= self.locals.deep_view());
        loop
            invariant
                begin == (Pass { scope_depth: (old(self)@.scope_depth - 1) as nat, ..old(self)@ }),
                old(self)@.primed(),
                old(self)@.scope_depth > 0,
                0 <= outer <= self@.locals.len() <= old(self)@.locals.len(),
                forall|i: int|
                    0 <= i < outer ==> (#[trigger] old(self)@.locals[i]).depth < old(
                        self,
                    )@.scope_depth,
                forall|i: int|
                    outer <= i < old(self)@.locals.len() ==> (
                    #[trigger] old(self)@.locals[i]).depth == old(self)@.scope_depth,
                self@.drop_locals() == begin.drop_locals(),
                frames(old(self)@, self@),
                self@.locals == old(self)@.locals.take(self@.locals.len() as int),
                self@.net() == old(self)@.net() - (old(self)@.locals.len() - self@.locals.len()),
                self@.scope_depth == old(self)@.scope_depth - 1,
                self@.source == old(self)@.source,
                self@.numbers == old(self)@.numbers,
                self@.used == old(self)@.used,
                self@.at == old(self)@.at,
                self@.line == old(self)@.line,
                self@.previous == old(self)@.previous,
                self@.current == old(self)@.current,
            ensures
                self@ == begin.drop_locals(),
                self@.locals.len() == outer,
            decreases self@.locals.len(),
        {
            let deeper = match self.last_local() {
                Some(local) => local.depth > self.scope_depth,
                None => false,
            };
            proof {
                let n = self@.locals.len() as int;
                if n > 0 {
                    assert(self@.locals[n - 1] == old(self)@.locals[n - 1]);
                }
            }
            if !deeper {
                break ;
            }
            // removing locals of exited scope
            let ghost before = self@;
            self.emit_pop();
            let ghost mid = self@;
            self.locals.pop();
            proof {
                assert(self.locals.deep_view() =~= before.locals.drop_last());
                assert(self@ == (Pass { locals: before.locals.drop_last(), ..mid }));
                assert(self@.locals =~= old(self)@.locals.take(self@.locals.len() as int));
                lemma_keeps_same(mid, self@);
            }
        }
        proof {
            assert forall|i: int| 0 <= i < self@.locals.len() implies 1 <= (
            #[trigger] self@.locals[i]).depth <= self@.scope_depth by {
                assert(self@.locals[i] == old(self)@.locals[i]);
            }
        }
    }

    /// Writes a `Pop` while a scope is being left, when the locals may lie
    /// deeper than the scopes.
    fn emit_pop(&mut self)
        requires
            old(self)@.previous is Some,
            old(self)@.previous.unwrap().line >= 1,
        ensures
            final(self)@ == old(self)@.emit(OpCodeKind::Pop),
            frames(old(self)@, final(self)@),
            final(self)@.net() == old(self)@.net() - 1,
    {
        let line = self.line();
        self.chunk.push(OpCode::new(OpCodeKind::Pop, line));
        proof {
            assert(self@.code.drop_last() =~= old(self)@.code);
            assert(keeps(old(self)@, self@)) by {
                reveal(keeps);
            }
            lemma_frames(old(self)@, self@);
        }
    }

    fn is_local_scope(&self) -> (r: bool)
        ensures
            r == (self@.scope_depth > 0),
    {
        self.scope_depth > 0
    }

    fn is_global_scope(&self) -> (r: bool)
        ensures
            r == (self@.scope_depth == 0),
    {
        self.scope_depth == 0
    }

    fn block(&mut self) -> (r: Result<(), ParsingError>)
        requires
            old(self)@.primed(),
        ensures
            agrees(r, final(self)@, block(old(self)@)),
            frames(old(self)@, final(self)@),
            r is Ok ==> stated(old(self)@, final(self)@),
        decreases old(self)@.rest(), 9int,
    {
        while !self.check(TokenType::RightBrace) && !self.check(TokenType::EOF)
            invariant
                self@.primed(),
                self@.rest() <= old(self)@.rest(),
                self@.scope_depth == old(self)@.scope_depth,
                extends(old(self)@.locals, self@.locals),
                forall|i: int|
                    old(self)@.locals.len() <= i < self@.locals.len() ==> (
                    #[trigger] self@.locals[i]).depth == self@.scope_depth,
                self@.net() - old(self)@.net() == self@.locals.len() - old(self)@.locals.len(),
                frames(old(self)@, self@),
                block(self@) == block(old(self)@),
            decreases self@.rest(),
        {
            let ghost before = self@;
            self.declaration()?;
        }
        let ghost before = self@;
        let r = self.consume(
            TokenType::RightBrace,
            String::from_str("Expected '}' at the end of block"),
        );
        proof {
            lemma_advance(before);
        }
        r
    }

    fn expr_statement(&mut self) -> (r: Result<(), ParsingError>)
        requires
            old(self)@.ready(),
        ensures
            agrees(r, final(self)@, expr_statement(old(self)@)),
            frames(old(self)@, final(self)@),
            r is Ok ==> stated(old(self)@, final(self)@) && final(self)@.locals == old(self)@.locals,
    {
        self.expression()?;
        let ghost mid = self@;
        self.consume(TokenType::SEMICOLON, String::from_str("Expected ';'"))?;
        let ghost end = self@;
        self.emit_op_code(OpCodeKind::Pop);
        Ok(())
    }

    fn print_statement(&mut self) -> (r: Result<(), ParsingError>)
        requires
            old(self)@.ready(),
        ensures
            agrees(r, final(self)@, print_statement(old(self)@)),
            frames(old(self)@, final(self)@),
            r is Ok ==> valued(old(self)@, final(self)@, 0) && final(self)@.rest() < old(self)@.rest(),
    {
        self.expression()?;
        let ghost mid = self@;
        self.consume(TokenType::SEMICOLON, String::from_str("Expected ';'"))?;
        let ghost end = self@;
        self.emit_op_code(OpCodeKind::Print);
        Ok(())
    }

    fn var_statement(&mut self) -> (r: Result<(), ParsingError>)
        requires
            old(self)@.ready(),
        ensures
            agrees(r, final(self)@, var_statement(old(self)@)),
            frames(old(self)@, final(self)@),
            r is Ok ==> {
                &&& final(self)@.primed()
                &&& final(self)@.rest() <= old(self)@.rest()
                &&& final(self)@.scope_depth == old(self)@.scope_depth
                &&& extends(old(self)@.locals, final(self)@.locals)
                &&& forall|i: int|
                    old(self)@.locals.len() <= i < final(self)@.locals.len() ==> (
                    #[trigger] final(self)@.locals[i]).depth == final(self)@.scope_depth
                &&& final(self)@.net() - old(self)@.net() == final(self)@.locals.len() - old(self)@.locals.len()
            },
    {
        let global = self.parse_variable_name(String::from_str("Expected variable name"))?;
        let ghost named = self@;
        if self.matches(TokenType::EQUAL)? {
            let ghost past = self@;
            let r = self.expression();
            r?;
        } else {
            self.emit_op_code(OpCodeKind::Null);
        }
        let ghost valued = self@;
        let r = self.consume(
            TokenType::SEMICOLON,
            String::from_str("Expected ';' after variable declaration"),
        );
        r?;
        let ghost end = self@;
        self.define_global(global);
        Ok(())
    }

    /// Adds the constant that holds the name of a global.
    fn identifier_constant(&mut self, literal: String) -> (r: usize)
        ensures
            r == old(self)@.constants.len(),
            final(self)@ == old(self)@.add_const(ValueView::Identifier(literal@)),
            frames(old(self)@, final(self)@),
            old(self)@.steady() ==> final(self)@.steady(),
    {
        self.make_const(Value::Identifier(literal))
    }

    fn parse_variable_name(&mut self, message: String) -> (r: Result<usize, ParsingError>)
        requires
            old(self)@.ready(),
        ensures
            frames(old(self)@, final(self)@),
            match old(self)@.parse_variable_name(message@) {
                Ok((pass, index)) => r == Ok::<usize, ParsingError>(index) && final(self)@ == pass,
                Err(e) => r is Err && r->Err_0@ == e,
            },
            r is Ok ==> {
                &&& final(self)@.primed()
                &&& final(self)@.rest() <= old(self)@.rest()
                &&& final(self)@.scope_depth == old(self)@.scope_depth
                &&& final(self)@.net() == old(self)@.net()
                &&& final(self)@.scope_depth == 0 ==> final(self)@.locals == old(self)@.locals
                    && r->Ok_0 < final(self)@.constants.len()
                &&& final(self)@.scope_depth > 0 ==> final(self)@.locals == old(self)@.locals.push(final(self)@.locals.last()) && final(self)@.locals.last().depth
                    == final(self)@.scope_depth
            },
    {
        self.consume(TokenType::IDENTIFIER, message)?;
        let ghost named = self@;
        let r = self.declare_variable();
        r?;
        let ghost declared = self@;

        if self.is_local_scope() {
            return Ok(0);
            // The machine does not look locals up by name, so the name of a
            // local never enters the constant pool.
        }
        let literal = self.previous_string_literal()?;
        let index = self.identifier_constant(literal);
        Ok(index)
    }

    fn declare_variable(&mut self) -> (r: Result<(), ParsingError>)
        requires
            old(self)@.primed(),
        ensures
            agrees(r, final(self)@, old(self)@.declare_variable()),
            frames(old(self)@, final(self)@),
            r is Ok ==> final(self)@.primed(),
    {
        proof {
            lemma_keeps_same(old(self)@, self@);
        }
        if self.is_global_scope() {
            return Ok(());
        }
        let local_name = match self.previous() {
            Some(token) => token.copy(),
            None => {
                return Ok(());
            },
        };
        if local_name.literal.is_none() {
            return Err(self.error(String::from_str("Expected literal")));
        }
        self.add_local(local_name);
        proof {
            lemma_keeps_same(old(self)@, self@);
        }
        Ok(())
    }

    fn add_local(&mut self, name: Token)
        ensures
            final(self)@ == (Pass {
                locals: old(self)@.locals.push(
                    LocalView {
                        name: name@,
                        depth: old(self)@.scope_depth as usize,
                        is_initialized: false,
                    },
                ),
                ..old(self)@
            }),
    {
        let local = Local::new(name, self.scope_depth, false);
        self.locals.push(local);
        assert(self.locals.deep_view() =~= old(self).locals.deep_view().push(local@));
    }

    /// Ends a declaration: the newest local is initialized, or the global
    /// is defined.
    fn define_global(&mut self, name_idx: usize)
        requires
            old(self)@.primed(),
            old(self)@.scope_depth == 0 ==> name_idx < old(self)@.constants.len(),
        ensures
            final(self)@ == old(self)@.define_global(name_idx),
            frames(old(self)@, final(self)@),
            final(self)@.primed(),
            final(self)@.rest() == old(self)@.rest(),
            final(self)@.net() == old(self)@.net() + if old(self)@.scope_depth == 0 {
                -1int
            } else {
                0int
            },
    {
        if self.is_local_scope() {
            match self.locals.pop() {
                Some(mut local) => {
                    local.mark_initialized();
                    self.locals.push(local);
                    proof {
                        assert(self.locals.deep_view() =~= old(self).locals.deep_view().update(
                            old(self).locals.len() - 1,
                            LocalView {
                                is_initialized: true,
                                ..old(self).locals.deep_view().last()
                            },
                        ));
                    }
                },
                None => {},
            }
            proof {
                lemma_keeps_same(old(self)@, self@);
            }
            return ;
        }
        self.emit_op_code(OpCodeKind::DefineGlobal { name_idx });
    }

    fn variable(&mut self, can_assign: bool) -> (r: Result<(), ParsingError>)
        requires
            old(self)@.primed(),
        ensures
            agrees(r, final(self)@, variable(old(self)@, can_assign)),
            frames(old(self)@, final(self)@),
            r is Ok ==> valued(old(self)@, final(self)@, 1),
        decreases old(self)@.rest(), 10int,
    {
        proof {
            lemma_keeps_same(old(self)@, self@);
        }
        let name = self.previous_string_literal()?;
        self.named_variable(name, can_assign)
    }

    fn named_variable(&mut self, name: String, can_assign: bool) -> (r: Result<
        (),
        ParsingError,
    >)
        requires
            old(self)@.primed(),
        ensures
            agrees(r, final(self)@, named_variable(old(self)@, name@, can_assign)),
            frames(old(self)@, final(self)@),
            r is Ok ==> valued(old(self)@, final(self)@, 1),
        decreases old(self)@.rest(), 9int,
    {
        let get_op: OpCodeKind;
        let set_op: OpCodeKind;

        proof {
            lemma_keeps_same(old(self)@, self@);
        }
        let local_idx = self.resolve_local(&name)?;
        match local_idx {
            Some(name_idx) => {
                get_op = OpCodeKind::ReadLocal { name_idx };
                set_op = OpCodeKind::SetLocal { name_idx };
            },
            None => {
                let name_idx = self.identifier_constant(name);
                get_op = OpCodeKind::ReadGlobal { name_idx };
                set_op = OpCodeKind::SetGlobal { name_idx };
            },
        }
        let ghost named = self@;

        if can_assign && self.matches(TokenType::EQUAL)? {
            let ghost past = self@;
            let r = self.expression();
            r?;
            let ghost value = self@;
            self.emit_op_code(set_op);
        } else {
            self.emit_op_code(get_op);
        }
        Ok(())
    }

    /// The slot of the local that `name` refers to, if it names one.
    fn resolve_local(&self, name: &String) -> (r: Result<Option<usize>, ParsingError>)
        requires
            self@.primed(),
        ensures
            match self@.resolve_local(name@) {
                Ok(slot) => r == Ok::<Option<usize>, ParsingError>(slot),
                Err(e) => r is Err && r->Err_0@ == e,
            },
    {
        if self.is_global_scope() {
            return Ok(None);
        }
        let mut i = self.local_count();
        while i > 0
            invariant
                i <= self@.locals.len(),
                self@.primed(),
                self@.find_local(name@, self@.locals.len() as int) == self@.find_local(
                    name@,
                    i as int,
                ),
            decreases i,
        {
            i -= 1;
            let local = &self.locals[i];
            let named = match &local.name.literal {
                Some(x) => *x == *name,
                None => false,
            };
            if named {
                if !local.is_initialized {
                    return Err(
                        self.error(
                            String::from_str("Cannot read local variable in its own initializer"),
                        ),
                    );
                }
                return Ok(Some(i));
            }
        }
        Ok(None)
    }

    fn expression(&mut self) -> (r: Result<(), ParsingError>)
        requires
            old(self)@.ready(),
        ensures
            agrees(r, final(self)@, expression(old(self)@)),
            frames(old(self)@, final(self)@),
            r is Ok ==> valued(old(self)@, final(self)@, 1) && final(self)@.rest() < old(self)@.rest(),
        decreases old(self)@.rest(), 5int,
    {
        self.parse_precedence(Precedence::Assignment)
    }

    fn number(&mut self) -> (r: Result<(), ParsingError>)
        requires
            old(self)@.primed(),
        ensures
            agrees(r, final(self)@, old(self)@.number()),
            frames(old(self)@, final(self)@),
            r is Ok ==> valued(old(self)@, final(self)@, 1),
    {
        if self.used >= self.numbers.len() {
            proof {
                lemma_keeps_same(old(self)@, self@);
            }
            return Err(self.error(String::from_str("Expected the value of the number")));
        }
        let value = Value::Float(self.numbers[self.used]);
        self.used += 1;
        let ghost mid = self@;
        proof {
            lemma_keeps_same(old(self)@, mid);
        }
        self.emit_const(value);
        Ok(())
    }

    fn literal(&mut self)
        requires
            old(self)@.primed(),
        ensures
            final(self)@ == old(self)@.literal(),
            frames(old(self)@, final(self)@),
            valued(old(self)@, final(self)@, 1),
    {
        let kind = match self.previous() {
            Some(token) => match token.token_type {
                TokenType::FALSE => OpCodeKind::False,
                TokenType::TRUE => OpCodeKind::True,
                _ => OpCodeKind::Null,
            },
            None => OpCodeKind::Null,
        };
        self.emit_op_code(kind);
    }

    fn string(&mut self) -> (r: Result<(), ParsingError>)
        requires
            old(self)@.primed(),
        ensures
            agrees(r, final(self)@, old(self)@.string()),
            frames(old(self)@, final(self)@),
            r is Ok ==> valued(old(self)@, final(self)@, 1),
    {
        let text = match self.previous() {
            Some(token) => match &token.literal {
                Some(literal) => Some(literal.clone()),
                None => None,
            },
            None => None,
        };
        match text {
            Some(text) => {
                self.emit_const(Value::Object(StringObject::new(text)));
                Ok(())
            },
            None => {
                proof {
                    lemma_keeps_same(old(self)@, self@);
                }
                Err(self.error(String::from_str("Expected literal")))
            },
        }
    }

    fn grouping(&mut self) -> (r: Result<(), ParsingError>)
        requires
            old(self)@.primed(),
        ensures
            agrees(r, final(self)@, grouping(old(self)@)),
            frames(old(self)@, final(self)@),
            r is Ok ==> valued(old(self)@, final(self)@, 1),
        decreases old(self)@.rest(), 10int,
    {
        self.expression()?;
        let ghost inner = self@;
        let r = self.consume(TokenType::RightParen, String::from_str("Expected ')'"));
        r
    }

    fn unary(&mut self) -> (r: Result<(), ParsingError>)
        requires
            old(self)@.primed(),
        ensures
            agrees(r, final(self)@, unary(old(self)@)),
            frames(old(self)@, final(self)@),
            r is Ok ==> valued(old(self)@, final(self)@, 1),
        decreases old(self)@.rest(), 10int,
    {
        let op_type = match self.previous() {
            Some(token) => token.token_type,
            None => TokenType::BANG,
        };
        self.parse_precedence(Precedence::Unary)?;
        let ghost operand = self@;
        match op_type {
            TokenType::MINUS => self.emit_op_code(OpCodeKind::Negate),
            _ => self.emit_op_code(OpCodeKind::Not),
        };
        Ok(())
    }

    fn binary(&mut self) -> (r: Result<(), ParsingError>)
        requires
            old(self)@.primed(),
            binary_op(old(self)@.behind()) is Some,
        ensures
            agrees(r, final(self)@, binary(old(self)@)),
            frames(old(self)@, final(self)@),
            r is Ok ==> valued(old(self)@, final(self)@, 0),
        decreases old(self)@.rest(), 10int,
    {
        let op_type = match self.previous() {
            Some(token) => token.token_type,
            None => TokenType::PLUS,
        };
        let rule = get_rule(op_type);
        let next_precedence = rule.precedence.next_precedence();

        self.parse_precedence(next_precedence)?;
        let ghost operand = self@;

        match op_type {
            TokenType::PLUS => {
                self.emit_op_code(OpCodeKind::Add);
            },
            TokenType::MINUS => {
                self.emit_op_code(OpCodeKind::Sub);
            },
            TokenType::SLASH => {
                self.emit_op_code(OpCodeKind::Div);
            },
            TokenType::STAR => {
                self.emit_op_code(OpCodeKind::Mul);
            },
            TokenType::BangEqual => {
                self.emit_op_code(OpCodeKind::Eq);
                let ghost mid = self@;
                self.emit_op_code(OpCodeKind::Not);
            },
            TokenType::EqualEqual => {
                self.emit_op_code(OpCodeKind::Eq);
            },
            TokenType::GREATER => {
                self.emit_op_code(OpCodeKind::Gt);
            },
            TokenType::LESS => {
                self.emit_op_code(OpCodeKind::Lt);
            },
            TokenType::GreaterEqual => {
                self.emit_op_code(OpCodeKind::Lt);
                let ghost mid = self@;
                self.emit_op_code(OpCodeKind::Not);
            },
            TokenType::LessEqual => {
                self.emit_op_code(OpCodeKind::Gt);
                let ghost mid = self@;
                self.emit_op_code(OpCodeKind::Not);
            },
            _ => {},
        }
        Ok(())
    }

    /// Parses what follows the token last consumed, by its parse rule.
    fn apply_rule(&mut self, rule: ParseFn, can_assign: bool) -> (r: Result<(), ParsingError>)
        requires
            old(self)@.primed(),
            rule == ParseFn::Binary ==> binary_op(old(self)@.behind()) is Some,
        ensures
            agrees(r, final(self)@, apply_rule(old(self)@, rule, can_assign)),
            frames(old(self)@, final(self)@),
            r is Ok ==> valued(
                old(self)@,
                final(self)@,
                if rule == ParseFn::Binary {
                    0int
                } else {
                    1int
                },
            ),
        decreases old(self)@.rest(), 11int,
    {
        match rule {
            ParseFn::Grouping => self.grouping(),
            ParseFn::Unary => self.unary(),
            ParseFn::Binary => self.binary(),
            ParseFn::Variable => self.variable(can_assign),
            ParseFn::String => self.string(),
            ParseFn::Number => self.number(),
            ParseFn::Literal => {
                self.literal();
                Ok(())
            },
        }
    }

    /// Whether the token ahead is a binary operator that binds at least as
    /// tightly as `precedence`.
    fn binds(&self, precedence: Precedence) -> (r: bool)
        requires
            self@.current is Some,
        ensures
            r == (precedence.rank() <= rule_of(self@.ahead()).precedence.rank()),
    {
        match self.current() {
            Some(token) => precedence.level() <= get_rule(token.token_type).precedence.level(),
            None => false,
        }
    }

    /// Parses an expression at `precedence` or tighter.
    fn parse_precedence(&mut self, precedence: Precedence) -> (r: Result<(), ParsingError>)
        requires
            old(self)@.ready(),
            precedence != Precedence::NONE,
        ensures
            agrees(r, final(self)@, parse_precedence(old(self)@, precedence)),
            frames(old(self)@, final(self)@),
            r is Ok ==> valued(old(self)@, final(self)@, 1) && final(self)@.rest() < old(self)@.rest(),
        decreases old(self)@.rest(), 4int,
    {
        self.advance()?;
        let ghost first = self@;
        let prefix_rule = match self.previous() {
            Some(token) => get_rule(token.token_type).prefix,
            None => None,
        };
        let prefix_rule = match prefix_rule {
            Some(rule) => rule,
            None => {
                return Err(self.error(String::from_str("Expected expression")));
            },
        };

        let can_assign = precedence.level() <= Precedence::Assignment.level();
        let r = self.apply_rule(prefix_rule, can_assign);
        r?;
        assert(operators(self@, precedence, can_assign) == parse_precedence(
            old(self)@,
            precedence,
        ));

        while self.binds(precedence)
            invariant
                precedence != Precedence::NONE,
                valued(old(self)@, self@, 1),
                self@.rest() < old(self)@.rest(),
                frames(old(self)@, self@),
                operators(self@, precedence, can_assign) == parse_precedence(
                    old(self)@,
                    precedence,
                ),
            decreases self@.rest(),
        {
            let ghost before = self@;
            let r = self.advance();
            r?;
            let ghost operator = self@;
            let infix_rule = match self.previous() {
                Some(token) => get_rule(token.token_type).infix,
                None => None,
            };
            let infix_rule = match infix_rule {
                Some(rule) => rule,
                None => {
                    continue ;
                },
            };
            let r = self.apply_rule(infix_rule, can_assign);
            r?;
        }
        let ghost done = self@;

        if can_assign && self.check(TokenType::EQUAL) {
            let r = self.advance();
            r?;
            Err(self.error(String::from_str("Invalid assignment target")))
        } else {
            Ok(())
        }
    }
}

} // verus!
