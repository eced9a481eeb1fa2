//! Errors of compiling and of running, and the texts that report them.

use vstd::prelude::*;
use crate::text::{decimal, decimal_string};

verus! {

/// What went wrong in the machine.
#[derive(Debug)]
pub enum RuntimeErrorKind {
    /// An instruction needed a value that the stack did not hold.
    MissingValue,
    /// An operator met operands that it is not defined for.
    OperationNotSupported { target: String, op: String },
    /// A global was read or assigned before it was defined.
    UndefinedVariable { name: String },
    /// A global was defined a second time.
    AlreadyDefinedVariable { name: String },
    /// A constant was not of the kind that the instruction expects.
    TypeError { expected: String, got: String },
}

/// The mathematical value of a [`RuntimeErrorKind`].
pub enum RuntimeErrorKindView {
    MissingValue,
    OperationNotSupported { target: Seq<char>, op: Seq<char> },
    UndefinedVariable { name: Seq<char> },
    AlreadyDefinedVariable { name: Seq<char> },
    TypeError { expected: Seq<char>, got: Seq<char> },
}

impl RuntimeErrorKindView {
    /// The text that reports the error.
    pub open spec fn message(self) -> Seq<char> {
        match self {
            RuntimeErrorKindView::MissingValue => "MissingStackValueError"@,
            RuntimeErrorKindView::OperationNotSupported { target, op } => {
                "OperationNotSupportedError: "@ + op + " is not supported "@ + target
            },
            RuntimeErrorKindView::UndefinedVariable { name } => {
                "UndefinedVariableError: name '"@ + name + "' is not defined"@
            },
            RuntimeErrorKindView::AlreadyDefinedVariable { name } => {
                "AlreadyDefinedVariableError: name '"@ + name + "' is already defined"@
            },
            RuntimeErrorKindView::TypeError { expected, got } => {
                "TypeError: expected "@ + expected + ", got "@ + got
            },
        }
    }
}

impl View for RuntimeErrorKind {
    type V = RuntimeErrorKindView;

    open spec fn view(&self) -> RuntimeErrorKindView {
        match self {
            RuntimeErrorKind::MissingValue => RuntimeErrorKindView::MissingValue,
            RuntimeErrorKind::OperationNotSupported { target, op } => {
                RuntimeErrorKindView::OperationNotSupported { target: target@, op: op@ }
            },
            RuntimeErrorKind::UndefinedVariable { name } => {
                RuntimeErrorKindView::UndefinedVariable { name: name@ }
            },
            RuntimeErrorKind::AlreadyDefinedVariable { name } => {
                RuntimeErrorKindView::AlreadyDefinedVariable { name: name@ }
            },
            RuntimeErrorKind::TypeError { expected, got } => {
                RuntimeErrorKindView::TypeError { expected: expected@, got: got@ }
            },
        }
    }
}

impl RuntimeErrorKind {
    /// The text that reports the error.
    pub fn message(&self) -> (r: String)
        ensures
            r@ == self@.message(),
    {
        match self {
            RuntimeErrorKind::MissingValue => String::from_str("MissingStackValueError"),
            RuntimeErrorKind::OperationNotSupported { target, op } => {
                let mut s = String::from_str("OperationNotSupportedError: ");
                s.append(op.as_str());
                s.append(" is not supported ");
                s.append(target.as_str());
                s
            },
            RuntimeErrorKind::UndefinedVariable { name } => {
                let mut s = String::from_str("UndefinedVariableError: name '");
                s.append(name.as_str());
                s.append("' is not defined");
                s
            },
            RuntimeErrorKind::AlreadyDefinedVariable { name } => {
                let mut s = String::from_str("AlreadyDefinedVariableError: name '");
                s.append(name.as_str());
                s.append("' is already defined");
                s
            },
            RuntimeErrorKind::TypeError { expected, got } => {
                let mut s = String::from_str("TypeError: expected ");
                s.append(expected.as_str());
                s.append(", got ");
                s.append(got.as_str());
                s
            },
        }
    }
}

/// A runtime error: what went wrong, and the source line of the instruction
/// that failed.
#[derive(Debug)]
pub struct RuntimeError {
    pub kind: RuntimeErrorKind,
    pub line: usize,
}

/// The mathematical value of a [`RuntimeError`].
pub struct RuntimeErrorView {
    pub kind: RuntimeErrorKindView,
    pub line: usize,
}

impl RuntimeErrorView {
    /// The text that reports the error.
    pub open spec fn message(self) -> Seq<char> {
        "[line "@ + decimal(self.line as nat) + "] Runtime error:\n"@ + self.kind.message()
    }
}

impl View for RuntimeError {
    type V = RuntimeErrorView;

    open spec fn view(&self) -> RuntimeErrorView {
        RuntimeErrorView { kind: self.kind@, line: self.line }
    }
}

impl RuntimeError {
    /// The text that reports the error.
    pub fn message(&self) -> (r: String)
        ensures
            r@ == self@.message(),
    {
        let mut s = String::from_str("[line ");
        s.append(decimal_string(self.line).as_str());
        s.append("] Runtime error:\n");
        s.append(self.kind.message().as_str());
        s
    }
}

/// Where in the source a parse error was found.
#[derive(Debug)]
pub enum ErrorPlace {
    /// At the end of the source.
    End,
    /// At the token with this lexeme.
    Lexeme(String),
    /// At a token that the scanner could not form.
    Unformed,
}

/// The mathematical value of an [`ErrorPlace`].
pub enum ErrorPlaceView {
    End,
    Lexeme(Seq<char>),
    Unformed,
}

impl View for ErrorPlace {
    type V = ErrorPlaceView;

    open spec fn view(&self) -> ErrorPlaceView {
        match self {
            ErrorPlace::End => ErrorPlaceView::End,
            ErrorPlace::Lexeme(s) => ErrorPlaceView::Lexeme(s@),
            ErrorPlace::Unformed => ErrorPlaceView::Unformed,
        }
    }
}

/// The first error that stopped a compilation: the line, the place and what
/// was expected there.
#[derive(Debug)]
pub struct ParsingError {
    pub line: usize,
    pub place: ErrorPlace,
    pub message: String,
}

/// The mathematical value of a [`ParsingError`].
pub struct ParsingErrorView {
    pub line: usize,
    pub place: ErrorPlaceView,
    pub message: Seq<char>,
}

impl ParsingErrorView {
    /// The line that reports the error.
    pub open spec fn report(self) -> Seq<char> {
        let head = "[line "@ + decimal(self.line as nat) + "] Error"@;
        let at = match self.place {
            ErrorPlaceView::End => " at end"@,
            ErrorPlaceView::Lexeme(s) => " at '"@ + s + "'"@,
            ErrorPlaceView::Unformed => Seq::<char>::empty(),
        };
        head + at + ": "@ + self.message
    }
}

impl View for ParsingError {
    type V = ParsingErrorView;

    open spec fn view(&self) -> ParsingErrorView {
        ParsingErrorView { line: self.line, place: self.place@, message: self.message@ }
    }
}

impl ParsingError {
    /// The line that reports the error.
    pub fn report(&self) -> (r: String)
        ensures
            r@ == self@.report(),
    {
        let mut s = String::from_str("[line ");
        s.append(decimal_string(self.line).as_str());
        s.append("] Error");
        match &self.place {
            ErrorPlace::End => {
                s.append(" at end");
            },
            ErrorPlace::Lexeme(lexeme) => {
                s.append(" at '");
                s.append(lexeme.as_str());
                s.append("'");
            },
            ErrorPlace::Unformed => {
                assert(s@ + Seq::<char>::empty() =~= s@);
            },
        }
        s.append(": ");
        s.append(self.message.as_str());
        s
    }
}

} // verus!
