//! Operator precedence and the table of parse rules.

use vstd::prelude::*;
use crate::token::TokenType;

verus! {

/// The precedence levels, from the loosest to the tightest.
#[derive(Debug, Clone, Copy, PartialEq, Eq, Structural)]
#[allow(clippy::upper_case_acronyms)]
pub enum Precedence {
    NONE,
    Assignment,
    Or,
    And,
    Eq,
    Comparison,
    Term,
    Factor,
    Unary,
    Call,
    Primary,
}

impl Precedence {
    /// The place of the level on the ladder, from 0 for `NONE`.
    pub open spec fn rank(self) -> int {
        match self {
            Precedence::NONE => 0,
            Precedence::Assignment => 1,
            Precedence::Or => 2,
            Precedence::And => 3,
            Precedence::Eq => 4,
            Precedence::Comparison => 5,
            Precedence::Term => 6,
            Precedence::Factor => 7,
            Precedence::Unary => 8,
            Precedence::Call => 9,
            Precedence::Primary => 10,
        }
    }

    /// The level one step tighter; past the tightest the ladder starts
    /// again at `Assignment`.
    pub open spec fn next(self) -> Precedence {
        match self {
            Precedence::NONE => Precedence::Assignment,
            Precedence::Assignment => Precedence::Or,
            Precedence::Or => Precedence::And,
            Precedence::And => Precedence::Eq,
            Precedence::Eq => Precedence::Comparison,
            Precedence::Comparison => Precedence::Term,
            Precedence::Term => Precedence::Factor,
            Precedence::Factor => Precedence::Unary,
            Precedence::Unary => Precedence::Call,
            Precedence::Call => Precedence::Primary,
            Precedence::Primary => Precedence::Assignment,
        }
    }

    /// The place of the level on the ladder.
    pub fn level(&self) -> (r: u8)
        ensures
            r == self.rank(),
    {
        match self {
            Precedence::NONE => 0,
            Precedence::Assignment => 1,
            Precedence::Or => 2,
            Precedence::And => 3,
            Precedence::Eq => 4,
            Precedence::Comparison => 5,
            Precedence::Term => 6,
            Precedence::Factor => 7,
            Precedence::Unary => 8,
            Precedence::Call => 9,
            Precedence::Primary => 10,
        }
    }

    /// The level one step tighter.
    pub fn next_precedence(&self) -> (r: Precedence)
        ensures
            r == self.next(),
            r != Precedence::NONE,
    {
        match self {
            Precedence::NONE => Precedence::Assignment,
            Precedence::Assignment => Precedence::Or,
            Precedence::Or => Precedence::And,
            Precedence::And => Precedence::Eq,
            Precedence::Eq => Precedence::Comparison,
            Precedence::Comparison => Precedence::Term,
            Precedence::Term => Precedence::Factor,
            Precedence::Factor => Precedence::Unary,
            Precedence::Unary => Precedence::Call,
            Precedence::Call => Precedence::Primary,
            Precedence::Primary => Precedence::Assignment,
        }
    }
}

/// The ways to parse what a token starts or continues.
#[derive(Debug, Clone, Copy, PartialEq, Eq, Structural)]
pub enum ParseFn {
    Grouping,
    Unary,
    Binary,
    Variable,
    String,
    Number,
    Literal,
}

/// The parse rule of a token kind: how to parse an expression that starts
/// with it, how to go on where it follows an operand, and how tightly it
/// binds there.
#[derive(Debug, Clone, Copy, PartialEq, Eq, Structural)]
pub struct ParseRule {
    pub prefix: Option<ParseFn>,
    pub infix: Option<ParseFn>,
    pub precedence: Precedence,
}

/// How an expression that starts with a token of this kind is parsed.
pub open spec fn prefix_of(kind: TokenType) -> Option<ParseFn> {
    match kind {
        TokenType::LeftParen => Some(ParseFn::Grouping),
        TokenType::MINUS | TokenType::BANG => Some(ParseFn::Unary),
        TokenType::IDENTIFIER => Some(ParseFn::Variable),
        TokenType::STRING => Some(ParseFn::String),
        TokenType::NUMBER => Some(ParseFn::Number),
        TokenType::FALSE | TokenType::NIL | TokenType::TRUE => Some(ParseFn::Literal),
        _ => None,
    }
}

/// How tightly a token of this kind binds between two operands; `NONE` for
/// what is no binary operator.
pub open spec fn precedence_of(kind: TokenType) -> Precedence {
    match kind {
        TokenType::MINUS | TokenType::PLUS => Precedence::Term,
        TokenType::SLASH | TokenType::STAR => Precedence::Factor,
        TokenType::BangEqual | TokenType::EqualEqual => Precedence::Eq,
        TokenType::GREATER | TokenType::GreaterEqual | TokenType::LESS | TokenType::LessEqual => {
            Precedence::Comparison
        },
        _ => Precedence::NONE,
    }
}

/// The parse rule of a token kind. Exactly the binary operators have an
/// infix rule.
pub open spec fn rule_of(kind: TokenType) -> ParseRule {
    ParseRule {
        prefix: prefix_of(kind),
        infix: if precedence_of(kind) == Precedence::NONE {
            None
        } else {
            Some(ParseFn::Binary)
        },
        precedence: precedence_of(kind),
    }
}

/// A rule without prefix or infix.
fn no_rule() -> (r: ParseRule)
    ensures
        r == (ParseRule { prefix: None, infix: None, precedence: Precedence::NONE }),
{
    ParseRule { prefix: None, infix: None, precedence: Precedence::NONE }
}

/// The rule of a token that only starts an expression.
fn prefix_rule(prefix: ParseFn) -> (r: ParseRule)
    ensures
        r == (ParseRule { prefix: Some(prefix), infix: None, precedence: Precedence::NONE }),
{
    ParseRule { prefix: Some(prefix), infix: None, precedence: Precedence::NONE }
}

/// The rule of a token that is only a binary operator.
fn infix_rule(precedence: Precedence) -> (r: ParseRule)
    ensures
        r == (ParseRule { prefix: None, infix: Some(ParseFn::Binary), precedence }),
{
    ParseRule { prefix: None, infix: Some(ParseFn::Binary), precedence }
}

/// The parse rule of a token kind, from the table.
pub fn get_rule(token_type: TokenType) -> (r: ParseRule)
    ensures
        r == rule_of(token_type),
{
    match token_type {
        TokenType::LeftParen => prefix_rule(ParseFn::Grouping),
        TokenType::RightParen => no_rule(),
        TokenType::LeftBrace => no_rule(),
        TokenType::RightBrace => no_rule(),
        TokenType::COMMA => no_rule(),
        TokenType::DOT => no_rule(),
        TokenType::MINUS => ParseRule {
            prefix: Some(ParseFn::Unary),
            infix: Some(ParseFn::Binary),
            precedence: Precedence::Term,
        },
        TokenType::PLUS => infix_rule(Precedence::Term),
        TokenType::SEMICOLON => no_rule(),
        TokenType::SLASH => infix_rule(Precedence::Factor),
        TokenType::STAR => infix_rule(Precedence::Factor),
        TokenType::BANG => prefix_rule(ParseFn::Unary),
        TokenType::BangEqual => infix_rule(Precedence::Eq),
        TokenType::EQUAL => no_rule(),
        TokenType::EqualEqual => infix_rule(Precedence::Eq),
        TokenType::GREATER => infix_rule(Precedence::Comparison),
        TokenType::GreaterEqual => infix_rule(Precedence::Comparison),
        TokenType::LESS => infix_rule(Precedence::Comparison),
        TokenType::LessEqual => infix_rule(Precedence::Comparison),
        TokenType::SlashEqual => no_rule(),
        TokenType::IDENTIFIER => prefix_rule(ParseFn::Variable),
        TokenType::STRING => prefix_rule(ParseFn::String),
        TokenType::NUMBER => prefix_rule(ParseFn::Number),
        TokenType::AND => no_rule(),
        TokenType::CLASS => no_rule(),
        TokenType::ELSE => no_rule(),
        TokenType::FALSE => prefix_rule(ParseFn::Literal),
        TokenType::FUN => no_rule(),
        TokenType::FOR => no_rule(),
        TokenType::IF => no_rule(),
        TokenType::NIL => prefix_rule(ParseFn::Literal),
        TokenType::OR => no_rule(),
        TokenType::PRINT => no_rule(),
        TokenType::RETURN => no_rule(),
        TokenType::SUPER => no_rule(),
        TokenType::THIS => no_rule(),
        TokenType::TRUE => prefix_rule(ParseFn::Literal),
        TokenType::VAR => no_rule(),
        TokenType::WHILE => no_rule(),
        TokenType::EOF => no_rule(),
        TokenType::Error => no_rule(),
    }
}

} // verus!
