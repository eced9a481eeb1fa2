//! Compiling and running in one call.

use vstd::prelude::*;
use crate::chunk::Chunk;
use crate::compiler::Compiler;
use crate::errors::{ParsingError, ParsingErrorView, RuntimeError, RuntimeErrorView};
use crate::lexis::{lemma_scan, scan};
use crate::machine::{run, ActionView};
use crate::scanner::Scanner;
use crate::syntax::{program, start};
use crate::token::TokenType;
use crate::vm::{Action, VirtualMachine};

verus! {

/// Why a source did not run to its end.
#[derive(Debug)]
pub enum InterpretError {
    /// It did not compile.
    Parsing(ParsingError),
    /// The machine stopped with an error.
    Runtime(RuntimeError),
}

/// The mathematical value of an [`InterpretError`].
pub enum InterpretErrorView {
    Parsing(ParsingErrorView),
    Runtime(RuntimeErrorView),
}

impl View for InterpretError {
    type V = InterpretErrorView;

    open spec fn view(&self) -> InterpretErrorView {
        match self {
            InterpretError::Parsing(e) => InterpretErrorView::Parsing(e@),
            InterpretError::Runtime(e) => InterpretErrorView::Runtime(e@),
        }
    }
}

impl InterpretError {
    /// The text that reports the error.
    pub fn message(&self) -> (r: String)
        ensures
            r@ == match self@ {
                InterpretErrorView::Parsing(e) => "Error while parsing"@,
                InterpretErrorView::Runtime(e) => e.message(),
            },
    {
        match self {
            InterpretError::Parsing(_) => String::from_str("Error while parsing"),
            InterpretError::Runtime(e) => e.message(),
        }
    }
}

/// The literals of the number tokens that scanning finds from `pos` on, in
/// order, up to the end of the source or the first token that cannot be
/// formed.
pub open spec fn number_lexemes(src: Seq<char>, pos: int, line: int) -> Seq<Seq<char>>
    decreases src.len() - pos,
{
    if pos < 0 || pos > src.len() || line < 0 {
        Seq::<Seq<char>>::empty()
    } else {
        let s = scan(src, pos, line);
        if s.token.token_type == TokenType::EOF || s.token.token_type == TokenType::Error {
            Seq::<Seq<char>>::empty()
        } else {
            proof {
                lemma_scan(src, pos, line);
            }
            let rest = number_lexemes(src, s.pos, s.line);
            if s.token.token_type == TokenType::NUMBER {
                seq![s.token.literal.unwrap()] + rest
            } else {
                rest
            }
        }
    }
}

/// The number literals of a source, in order: what a caller turns into the
/// numbers that [`Compiler::from_source`] takes.
pub fn number_literals(source: &str) -> (r: Vec<String>)
    requires
        source@.len() < usize::MAX,
    ensures
        r.deep_view() == number_lexemes(source@, 0, 1),
{
    let mut scanner = Scanner::new(source);
    let mut found: Vec<String> = Vec::new();
    assert(found.deep_view() =~= Seq::<Seq<char>>::empty());
    loop
        invariant
            scanner@.source == source@,
            scanner@.wf(),
            found.deep_view() + number_lexemes(
                source@,
                scanner@.current as int,
                scanner@.line as int,
            ) == number_lexemes(source@, 0, 1),
        decreases source@.len() - scanner@.current,
    {
        let ghost before = scanner@;
        let ghost so_far = found.deep_view();
        proof {
            lemma_scan(source@, before.current as int, before.line as int);
        }
        let token = scanner.scan_token();
        match token.token_type {
            TokenType::EOF | TokenType::Error => {
                assert(so_far + Seq::<Seq<char>>::empty() =~= so_far);
                return found;
            },
            TokenType::NUMBER => {
                match token.literal {
                    Some(literal) => {
                        found.push(literal);
                        proof {
                            let rest = number_lexemes(
                                source@,
                                scanner@.current as int,
                                scanner@.line as int,
                            );
                            assert(found.deep_view() =~= so_far.push(literal@));
                            assert(so_far.push(literal@) + rest =~= so_far + (seq![literal@]
                                + rest));
                        }
                    },
                    None => {},
                }
            },
            _ => {},
        }
    }
}

/// What interpreting gave, as a value of the semantics.
pub open spec fn outcome_of(r: Result<Action, InterpretError>) -> Result<
    ActionView,
    InterpretErrorView,
> {
    match r {
        Ok(action) => Ok(action@),
        Err(e) => Err(e@),
    }
}

/// Compiles `source` onto the end of `chunk` and runs the machine on the
/// chunk, from where the machine stands.
///
/// A source that does not compile gives the parse error and leaves the
/// machine as it is. Otherwise the machine runs as
/// [`VirtualMachine::exec`] does, up to its first stop.
pub fn interpret(
    source: &str,
    numbers: Vec<u64>,
    chunk: &mut Chunk,
    vm: &mut VirtualMachine,
) -> (r: Result<Action, InterpretError>)
    requires
        source@.len() < usize::MAX,
        old(chunk)@.indices_in_pool(),
    ensures
        final(chunk)@.indices_in_pool(),
        match program(start(source@, numbers@, old(chunk)@.code, old(chunk)@.constants)) {
            Err(e) => outcome_of(r) == Err::<ActionView, InterpretErrorView>(
                InterpretErrorView::Parsing(e),
            ) && final(vm)@ == old(vm)@,
            Ok(pass) => {
                &&& final(chunk)@ == pass.chunk()
                &&& final(vm)@ == run(pass.chunk(), old(vm)@).machine
                &&& outcome_of(r) == match run(pass.chunk(), old(vm)@).result {
                    Ok(action) => Ok::<ActionView, InterpretErrorView>(action),
                    Err(e) => Err::<ActionView, InterpretErrorView>(
                        InterpretErrorView::Runtime(e),
                    ),
                }
            },
        },
{
    let mut compiler = Compiler::from_source(source, numbers);
    match compiler.compile(chunk) {
        Ok(()) => {},
        Err(e) => {
            return Err(InterpretError::Parsing(e));
        },
    }
    match vm.exec(chunk) {
        Ok(action) => Ok(action),
        Err(e) => Err(InterpretError::Runtime(e)),
    }
}

} // verus!
