//! The scanner: a cursor over a source text that forms one token per call.

use vstd::prelude::*;
use crate::lexis::{
    comment_at, digits_end, holds, is_alpha_char, is_digit_char, keyword, lemma_line_feeds,
    lemma_run_ends, lemma_scan, lemma_skip, line_feeds, mark_at, quote_at, scan, skip_blank,
    skip_comment, token_at, word_end, word_kind,
};
use crate::token::{text_view, Token, TokenType};

verus! {

/// A scanner over a source text.
pub struct Scanner {
    source: String,
    chars: Vec<char>,
    start: usize,
    current: usize,
    line: usize,
}

/// The mathematical value of a [`Scanner`]: the source, where the last token
/// started, where the next scan starts, and the line there.
pub struct ScannerView {
    pub source: Seq<char>,
    pub start: usize,
    pub current: usize,
    pub line: usize,
}

impl ScannerView {
    /// The cursor lies inside the source and the line is one that the
    /// characters before the cursor can have reached.
    pub open spec fn wf(self) -> bool {
        &&& self.source.len() < usize::MAX
        &&& self.start <= self.current <= self.source.len()
        &&& 1 <= self.line <= self.current + 1
    }
}

impl View for Scanner {
    type V = ScannerView;

    closed spec fn view(&self) -> ScannerView {
        ScannerView {
            source: self.source@,
            start: self.start,
            current: self.current,
            line: self.line,
        }
    }
}

/// Whether two texts are the same.
fn same_text(a: &str, b: &str) -> (r: bool)
    ensures
        r == (a@ == b@),
{
    String::from_str(a) == String::from_str(b)
}

/// The token kind of a reserved word.
fn keyword_type(word: &str) -> (r: Option<TokenType>)
    ensures
        r == keyword(word@),
{
    if same_text(word, "and") {
        Some(TokenType::AND)
    } else if same_text(word, "class") {
        Some(TokenType::CLASS)
    } else if same_text(word, "else") {
        Some(TokenType::ELSE)
    } else if same_text(word, "false") {
        Some(TokenType::FALSE)
    } else if same_text(word, "for") {
        Some(TokenType::FOR)
    } else if same_text(word, "fn") {
        Some(TokenType::FUN)
    } else if same_text(word, "if") {
        Some(TokenType::IF)
    } else if same_text(word, "null") {
        Some(TokenType::NIL)
    } else if same_text(word, "or") {
        Some(TokenType::OR)
    } else if same_text(word, "print") {
        Some(TokenType::PRINT)
    } else if same_text(word, "return") {
        Some(TokenType::RETURN)
    } else if same_text(word, "super") {
        Some(TokenType::SUPER)
    } else if same_text(word, "this") {
        Some(TokenType::THIS)
    } else if same_text(word, "true") {
        Some(TokenType::TRUE)
    } else if same_text(word, "let") {
        Some(TokenType::VAR)
    } else if same_text(word, "while") {
        Some(TokenType::WHILE)
    } else {
        None
    }
}

impl Scanner {
    #[verifier::type_invariant]
    spec fn inv(self) -> bool {
        &&& self.chars@ == self.source@
        &&& self@.wf()
    }

    /// A scanner at the start of `source`, on line 1.
    pub fn new(source: &str) -> (r: Scanner)
        requires
            source@.len() < usize::MAX,
        ensures
            r@ == (ScannerView { source: source@, start: 0, current: 0, line: 1 }),
            r@.wf(),
    {
        let mut chars: Vec<char> = Vec::new();
        for c in it: source.chars()
            invariant
                chars@ == it.seq().take(it.index()),
        {
            chars.push(c);
        }
        let source = String::from_str(source);
        assert(chars@ =~= source@);
        Self { source, chars, start: 0, current: 0, line: 1 }
    }

    /// Scans the next token. At the end of the source every scan gives `EOF`.
    pub fn scan_token(&mut self) -> (r: Token)
        ensures
            r@ == scan(old(self)@.source, old(self)@.current as int, old(self)@.line as int).token,
            final(self)@.current == scan(
                old(self)@.source,
                old(self)@.current as int,
                old(self)@.line as int,
            ).pos,
            final(self)@.line == scan(
                old(self)@.source,
                old(self)@.current as int,
                old(self)@.line as int,
            ).line,
            final(self)@.source == old(self)@.source,
            final(self)@.start == r.start,
            old(self)@.wf(),
            final(self)@.wf(),
    {
        proof {
            use_type_invariant(&*self);
            lemma_scan(self@.source, self@.current as int, self@.line as int);
            lemma_skip(self@.source, self@.current as int, self@.line as int);
        }
        self.skip_whitespace();
        proof {
            use_type_invariant(&*self);
        }
        self.start = self.current;

        if self.is_at_end() {
            return self.make_token(TokenType::EOF);
        }
        let c = self.advance();
        if c == '(' {
            self.make_token(TokenType::LeftParen)
        } else if c == ')' {
            self.make_token(TokenType::RightParen)
        } else if c == '{' {
            self.make_token(TokenType::LeftBrace)
        } else if c == '}' {
            self.make_token(TokenType::RightBrace)
        } else if c == ';' {
            self.make_token(TokenType::SEMICOLON)
        } else if c == ',' {
            self.make_token(TokenType::COMMA)
        } else if c == '.' {
            self.make_token(TokenType::DOT)
        } else if c == '-' {
            self.make_token(TokenType::MINUS)
        } else if c == '+' {
            self.make_token(TokenType::PLUS)
        } else if c == '*' {
            self.make_token(TokenType::STAR)
        } else if c == '!' {
            let is_equal = self.matches('=');
            self.make_token(if is_equal { TokenType::BangEqual } else { TokenType::BANG })
        } else if c == '=' {
            let is_equal = self.matches('=');
            self.make_token(if is_equal { TokenType::EqualEqual } else { TokenType::EQUAL })
        } else if c == '<' {
            let is_equal = self.matches('=');
            self.make_token(if is_equal { TokenType::LessEqual } else { TokenType::LESS })
        } else if c == '>' {
            let is_equal = self.matches('=');
            self.make_token(if is_equal { TokenType::GreaterEqual } else { TokenType::GREATER })
        } else if c == '/' {
            let is_equal = self.matches('=');
            self.make_token(if is_equal { TokenType::SlashEqual } else { TokenType::SLASH })
        } else if c == '"' {
            self.string()
        } else if self.is_digit(c) {
            self.number()
        } else if self.is_alpha(c) {
            self.identifier()
        } else {
            self.make_error_token(String::from_str("Unexpected character"))
        }
    }

    /// The literal of a token of kind `token_type` over the lexeme at hand:
    /// the lexeme of a number or identifier, the inside of a string.
    fn literal(&self, token_type: TokenType) -> (r: Option<String>)
        requires
            token_type == TokenType::STRING ==> self@.start + 2 <= self@.current,
        ensures
            text_view(r) == if token_type == TokenType::NUMBER || token_type
                == TokenType::IDENTIFIER {
                Some(self@.source.subrange(self@.start as int, self@.current as int))
            } else if token_type == TokenType::STRING {
                Some(self@.source.subrange(self@.start + 1, self@.current - 1))
            } else {
                None
            },
    {
        proof {
            use_type_invariant(self);
        }
        match token_type {
            TokenType::NUMBER | TokenType::IDENTIFIER => Some(
                self.substr(self.start, self.current),
            ),
            TokenType::STRING => Some(self.substr(self.start + 1, self.current - 1)),
            _ => None,
        }
    }

    /// The token of kind `token_type` over the lexeme at hand.
    fn make_token(&self, token_type: TokenType) -> (r: Token)
        requires
            token_type != TokenType::Error,
            token_type == TokenType::STRING ==> self@.start + 2 <= self@.current,
        ensures
            r.token_type == token_type,
            r.line == self@.line,
            r.start == self@.start,
            r.length == self@.current - self@.start,
            r.message.is_none(),
            text_view(r.literal) == if token_type == TokenType::NUMBER || token_type
                == TokenType::IDENTIFIER {
                Some(self@.source.subrange(self@.start as int, self@.current as int))
            } else if token_type == TokenType::STRING {
                Some(self@.source.subrange(self@.start + 1, self@.current - 1))
            } else {
                None
            },
    {
        let literal = self.literal(token_type);
        Token::new(token_type, self.line, self.start, self.length(), literal, None)
    }

    /// The error token over the lexeme at hand.
    fn make_error_token(&self, message: String) -> (r: Token)
        ensures
            r.token_type == TokenType::Error,
            r.line == self@.line,
            r.start == self@.start,
            r.length == self@.current - self@.start,
            r.message == Some(message),
            r.literal.is_none(),
    {
        Token::new(TokenType::Error, self.line, self.start, self.length(), None, Some(message))
    }

    fn char_at(&self, index: usize) -> (c: char)
        requires
            index < self@.source.len(),
        ensures
            c == self@.source[index as int],
    {
        proof {
            use_type_invariant(self);
        }
        self.chars[index]
    }

    fn advance(&mut self) -> (c: char)
        requires
            old(self)@.current < old(self)@.source.len(),
        ensures
            c == old(self)@.source[old(self)@.current as int],
            final(self)@ == (ScannerView { current: (old(self)@.current + 1) as usize, ..old(self)@ }),
    {
        proof {
            use_type_invariant(&*self);
        }
        let res = self.char_at(self.current);
        self.current += 1;
        res
    }

    fn matches(&mut self, expected: char) -> (r: bool)
        ensures
            r == holds(old(self)@.source, old(self)@.current as int, expected),
            final(self)@ == (ScannerView {
                current: if r {
                    (old(self)@.current + 1) as usize
                } else {
                    old(self)@.current
                },
                ..old(self)@
            }),
    {
        proof {
            use_type_invariant(&*self);
        }
        if self.is_at_end() {
            return false;
        }
        if self.char_at(self.current) != expected {
            return false;
        }
        self.advance();
        true
    }

    /// Whether the character before the cursor is `expected`.
    fn match_prev(&self, expected: char) -> (r: bool)
        ensures
            r == holds(self@.source, self@.current - 1, expected),
    {
        proof {
            use_type_invariant(self);
        }
        if self.current == 0 {
            return false;
        }
        if self.char_at(self.current - 1) != expected {
            return false;
        }
        true
    }

    /// The character at the cursor, or NUL at the end of the source.
    fn peek(&self) -> (c: char)
        ensures
            c == if self@.current < self@.source.len() {
                self@.source[self@.current as int]
            } else {
                '\0'
            },
    {
        if self.is_at_end() {
            '\0'
        } else {
            self.char_at(self.current)
        }
    }

    /// The character after the one at the cursor, or NUL where there is
    /// none.
    fn peek_next(&self) -> (c: char)
        ensures
            c == if self@.current + 1 < self@.source.len() {
                self@.source[self@.current + 1]
            } else {
                '\0'
            },
    {
        proof {
            use_type_invariant(self);
        }
        if self.current + 1 >= self.chars.len() {
            '\0'
        } else {
            self.char_at(self.current + 1)
        }
    }

    fn is_at_end(&self) -> (r: bool)
        ensures
            r == (self@.current >= self@.source.len()),
    {
        proof {
            use_type_invariant(self);
        }
        self.current >= self.chars.len()
    }

    /// The characters of the source from `start` up to `end`, as far as the
    /// source goes.
    pub fn substr(&self, start: usize, end: usize) -> (r: String)
        requires
            start <= end,
        ensures
            r@ == self@.source.subrange(
                if start <= self@.source.len() {
                    start as int
                } else {
                    self@.source.len() as int
                },
                if end <= self@.source.len() {
                    end as int
                } else {
                    self@.source.len() as int
                },
            ),
    {
        proof {
            use_type_invariant(self);
        }
        let len = self.chars.len();
        let from = if start <= len { start } else { len };
        let to = if end <= len { end } else { len };
        self.source.as_str().substring_char(from, to).to_owned()
    }

    fn is_digit(&self, c: char) -> (r: bool)
        ensures
            r == is_digit_char(c),
    {
        '0' <= c && c <= '9'
    }

    fn length(&self) -> (r: usize)
        ensures
            r == self@.current - self@.start,
    {
        proof {
            use_type_invariant(self);
        }
        self.current - self.start
    }

    fn skip_whitespace(&mut self)
        ensures
            (final(self)@.current as int, final(self)@.line as int) == skip_blank(
                old(self)@.source,
                old(self)@.current as int,
                old(self)@.line as int,
            ),
            final(self)@.source == old(self)@.source,
            final(self)@.start == old(self)@.start,
    {
        let ghost src = self@.source;
        let ghost goal = skip_blank(src, self@.current as int, self@.line as int);
        loop
            invariant
                self@.source == src,
                src == old(self)@.source,
                goal == skip_blank(src, old(self)@.current as int, old(self)@.line as int),
                self@.start == old(self)@.start,
                skip_blank(src, self@.current as int, self@.line as int) == goal,
            ensures
                (self@.current as int, self@.line as int) == goal,
            decreases src.len() - self@.current,
        {
            proof {
                use_type_invariant(&*self);
            }
            let c = self.peek();
            if self.is_at_end() {
                return ;
            }
            if c == ' ' || c == '\r' || c == '\t' {
                self.advance();
            } else if c == '\n' {
                self.advance();
                proof {
                    use_type_invariant(&*self);
                }
                self.line += 1;
            } else if c == '/' {
                if self.peek_next() == '/' {
                    let ghost at = self@.current as int;
                    assert(comment_at(src, at));
                    self.advance();
                    self.advance();
                    while self.peek() != '\n' && !self.is_at_end()
                        invariant
                            self@.source == src,
                            self@.start == old(self)@.start,
                            self@.current > at,
                            skip_comment(src, self@.current as int, self@.line as int) == goal,
                        decreases src.len() - self@.current,
                    {
                        proof {
                            use_type_invariant(&*self);
                        }
                        self.advance();
                    }
                    proof {
                        use_type_invariant(&*self);
                    }
                    if self.is_at_end() {
                        return ;
                    }
                } else {
                    return ;
                }
            } else {
                return ;
            }
        }
    }

    /// Scans the rest of a string, after its opening quote.
    fn string(&mut self) -> (r: Token)
        requires
            old(self)@.start + 1 == old(self)@.current,
            old(self)@.source[old(self)@.start as int] == '"',
        ensures
            r@ == token_at(old(self)@.source, old(self)@.start as int, old(self)@.line as int).token,
            final(self)@.current == token_at(
                old(self)@.source,
                old(self)@.start as int,
                old(self)@.line as int,
            ).pos,
            final(self)@.line == token_at(
                old(self)@.source,
                old(self)@.start as int,
                old(self)@.line as int,
            ).line,
            final(self)@.source == old(self)@.source,
            final(self)@.start == old(self)@.start,
    {
        let ghost src = self@.source;
        let ghost first = self@.current as int;
        let ghost line0 = self@.line as int;
        proof {
            use_type_invariant(&*self);
            lemma_run_ends(src, first);
            lemma_line_feeds(src, first, quote_at(src, first));
            assert(mark_at(src, self@.start as int).is_none());
        }
        loop
            invariant
                self@.source == src,
                self@.start == old(self)@.start,
                self@.start + 1 == first,
                first <= self@.current <= src.len(),
                quote_at(src, self@.current as int) == quote_at(src, first),
                self@.line == line0 + line_feeds(src, first, self@.current as int),
            ensures
                self@.current == quote_at(src, first),
            decreases src.len() - self@.current,
        {
            proof {
                use_type_invariant(&*self);
            }
            let peek = self.peek();
            if peek == '"' || self.is_at_end() {
                break ;
            }
            self.advance();
            if peek == '\n' {
                proof {
                    use_type_invariant(&*self);
                }
                self.line += 1;
            }
        }

        if self.is_at_end() {
            return self.make_error_token(String::from_str("Unclosed string literal"));
        }
        self.advance();
        self.make_token(TokenType::STRING)
    }

    fn is_alpha(&self, c: char) -> (r: bool)
        ensures
            r == is_alpha_char(c),
    {
        ('a' <= c && c <= 'z') || ('A' <= c && c <= 'Z') || c == '_'
    }

    /// Scans the rest of a number, after its first digit.
    fn number(&mut self) -> (r: Token)
        requires
            old(self)@.start + 1 == old(self)@.current,
            is_digit_char(old(self)@.source[old(self)@.start as int]),
        ensures
            r@ == token_at(old(self)@.source, old(self)@.start as int, old(self)@.line as int).token,
            final(self)@.current == token_at(
                old(self)@.source,
                old(self)@.start as int,
                old(self)@.line as int,
            ).pos,
            final(self)@.line == old(self)@.line,
            final(self)@.source == old(self)@.source,
            final(self)@.start == old(self)@.start,
    {
        let ghost src = self@.source;
        let ghost start = self@.start as int;
        proof {
            use_type_invariant(&*self);
            assert(mark_at(src, start).is_none());
            assert(digits_end(src, start) == digits_end(src, start + 1));
        }
        while self.is_digit(self.peek())
            invariant
                self@.source == src,
                self@.start == start,
                self@.line == old(self)@.line,
                digits_end(src, self@.current as int) == digits_end(src, start),
            decreases src.len() - self@.current,
        {
            proof {
                use_type_invariant(&*self);
            }
            self.advance();
        }
        proof {
            use_type_invariant(&*self);
        }
        if self.peek() == '.' && self.is_digit(self.peek_next()) {
            let ghost whole = self@.current as int;
            self.advance();
            while self.is_digit(self.peek())
                invariant
                    self@.source == src,
                    self@.start == start,
                    self@.line == old(self)@.line,
                    digits_end(src, self@.current as int) == digits_end(src, whole + 1),
                decreases src.len() - self@.current,
            {
                proof {
                    use_type_invariant(&*self);
                }
                self.advance();
            }
        }
        self.make_token(TokenType::NUMBER)
    }

    /// Scans the rest of a word, after its first character.
    fn identifier(&mut self) -> (r: Token)
        requires
            old(self)@.start + 1 == old(self)@.current,
            is_alpha_char(old(self)@.source[old(self)@.start as int]),
        ensures
            r@ == token_at(old(self)@.source, old(self)@.start as int, old(self)@.line as int).token,
            final(self)@.current == token_at(
                old(self)@.source,
                old(self)@.start as int,
                old(self)@.line as int,
            ).pos,
            final(self)@.line == old(self)@.line,
            final(self)@.source == old(self)@.source,
            final(self)@.start == old(self)@.start,
    {
        let ghost src = self@.source;
        let ghost start = self@.start as int;
        proof {
            use_type_invariant(&*self);
            assert(mark_at(src, start).is_none());
            assert(word_end(src, start) == word_end(src, start + 1));
        }
        while self.is_alpha(self.peek()) || self.is_digit(self.peek())
            invariant
                self@.source == src,
                self@.start == start,
                self@.line == old(self)@.line,
                word_end(src, self@.current as int) == word_end(src, start),
            decreases src.len() - self@.current,
        {
            proof {
                use_type_invariant(&*self);
            }
            self.advance();
        }
        let kind = self.identifier_type();
        self.make_token(kind)
    }

    /// The kind of the word at hand.
    fn identifier_type(&self) -> (r: TokenType)
        ensures
            r == word_kind(self@.source, self@.start as int, self@.current as int),
            r != TokenType::Error,
            r != TokenType::STRING,
    {
        proof {
            use_type_invariant(self);
        }
        let identifier_value = self.substr(self.start, self.current);
        match keyword_type(identifier_value.as_str()) {
            Some(token_type) => token_type,
            None => TokenType::IDENTIFIER,
        }
    }
}

} // verus!
