//! Tokens: what the scanner hands to the compiler.

use vstd::prelude::*;

verus! {

/// The kinds of token, in the order in which the parse rules are tabulated.
#[derive(Debug, Clone, Copy, PartialEq, Eq, Structural)]
#[allow(clippy::upper_case_acronyms)]
pub enum TokenType {
    LeftParen,
    RightParen,
    LeftBrace,
    RightBrace,
    COMMA,
    DOT,
    MINUS,
    PLUS,
    SEMICOLON,
    SLASH,
    STAR,
    BANG,
    BangEqual,
    EQUAL,
    EqualEqual,
    GREATER,
    GreaterEqual,
    LESS,
    LessEqual,
    SlashEqual,
    IDENTIFIER,
    STRING,
    NUMBER,
    AND,
    CLASS,
    ELSE,
    FALSE,
    FUN,
    FOR,
    IF,
    NIL,
    OR,
    PRINT,
    RETURN,
    SUPER,
    THIS,
    TRUE,
    VAR,
    WHILE,
    EOF,
    Error,
}

/// A token: its kind, the line it ends on, the span of its lexeme in
/// characters, the literal text of a number, string or identifier, and the
/// message of an error token.
#[derive(Debug)]
pub struct Token {
    pub token_type: TokenType,
    pub line: usize,
    pub start: usize,
    pub length: usize,
    pub literal: Option<String>,
    pub message: Option<String>,
}

/// The mathematical value of a [`Token`]: texts as character sequences.
pub struct TokenView {
    pub token_type: TokenType,
    pub line: usize,
    pub start: usize,
    pub length: usize,
    pub literal: Option<Seq<char>>,
    pub message: Option<Seq<char>>,
}

/// The view of an optional text.
pub open spec fn text_view(t: Option<String>) -> Option<Seq<char>> {
    match t {
        Some(s) => Some(s@),
        None => None,
    }
}

/// Copies an optional text.
pub fn copy_text(t: &Option<String>) -> (r: Option<String>)
    ensures
        text_view(r) == text_view(*t),
{
    match t {
        Some(s) => Some(s.clone()),
        None => None,
    }
}

impl View for Token {
    type V = TokenView;

    open spec fn view(&self) -> TokenView {
        TokenView {
            token_type: self.token_type,
            line: self.line,
            start: self.start,
            length: self.length,
            literal: text_view(self.literal),
            message: text_view(self.message),
        }
    }
}

impl Token {
    /// Builds a token. An error token carries a message and no other token
    /// does.
    pub fn new(
        token_type: TokenType,
        line: usize,
        start: usize,
        length: usize,
        literal: Option<String>,
        message: Option<String>,
    ) -> (r: Token)
        requires
            (token_type == TokenType::Error) <==> message.is_some(),
        ensures
            r == (Token { token_type, line, start, length, literal, message }),
    {
        Token { token_type, line, start, length, literal, message }
    }

    /// A token equal to this one.
    pub fn copy(&self) -> (r: Token)
        ensures
            r@ == self@,
    {
        Token {
            token_type: self.token_type,
            line: self.line,
            start: self.start,
            length: self.length,
            literal: copy_text(&self.literal),
            message: copy_text(&self.message),
        }
    }
}

} // verus!
