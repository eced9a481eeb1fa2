//! The two tokens that a pass has at hand.

use vstd::prelude::*;
use crate::token::{Token, TokenView};

verus! {

/// The token ahead and the token last consumed.
pub struct Parser {
    pub current: Option<Token>,
    pub previous: Option<Token>,
}

/// The mathematical value of a token that may be missing.
pub open spec fn token_view(token: Option<Token>) -> Option<TokenView> {
    match token {
        Some(t) => Some(t@),
        None => None,
    }
}

impl Parser {
    /// A parser that has seen no token yet.
    pub fn new() -> (r: Parser)
        ensures
            r.current.is_none(),
            r.previous.is_none(),
    {
        Self { current: None, previous: None }
    }
}

} // verus!
