//! The lexical grammar: what the tokens of a source text are.
//!
//! A source is a sequence of characters. Scanning starts at a position and a
//! line, passes over blanks and comments, and forms one token.

use vstd::prelude::*;
use crate::token::{TokenType, TokenView};

verus! {

/// A decimal digit.
pub open spec fn is_digit_char(c: char) -> bool {
    '0' <= c <= '9'
}

/// A letter of the Latin alphabet or an underscore.
pub open spec fn is_alpha_char(c: char) -> bool {
    ('a' <= c <= 'z') || ('A' <= c <= 'Z') || c == '_'
}

/// A character that may continue an identifier.
pub open spec fn is_word_char(c: char) -> bool {
    is_alpha_char(c) || is_digit_char(c)
}

/// A blank that does not end a line.
pub open spec fn is_space_char(c: char) -> bool {
    c == ' ' || c == '\r' || c == '\t'
}

/// The first position from `pos` on that holds a line feed, or the end of
/// the source.
pub open spec fn line_end(src: Seq<char>, pos: int) -> int
    decreases src.len() - pos,
{
    if pos < 0 || pos >= src.len() || src[pos] == '\n' {
        pos
    } else {
        line_end(src, pos + 1)
    }
}

/// The first position from `pos` on that holds no digit.
pub open spec fn digits_end(src: Seq<char>, pos: int) -> int
    decreases src.len() - pos,
{
    if pos < 0 || pos >= src.len() || !is_digit_char(src[pos]) {
        pos
    } else {
        digits_end(src, pos + 1)
    }
}

/// The first position from `pos` on that holds no word character.
pub open spec fn word_end(src: Seq<char>, pos: int) -> int
    decreases src.len() - pos,
{
    if pos < 0 || pos >= src.len() || !is_word_char(src[pos]) {
        pos
    } else {
        word_end(src, pos + 1)
    }
}

/// The first position from `pos` on that holds a double quote, or the end
/// of the source.
pub open spec fn quote_at(src: Seq<char>, pos: int) -> int
    decreases src.len() - pos,
{
    if pos < 0 || pos >= src.len() || src[pos] == '"' {
        pos
    } else {
        quote_at(src, pos + 1)
    }
}

/// The number of line feeds in `src[from..to]`.
pub open spec fn line_feeds(src: Seq<char>, from: int, to: int) -> int
    decreases to - from,
{
    if from < 0 || to > src.len() || from >= to {
        0
    } else {
        line_feeds(src, from, to - 1) + if src[to - 1] == '\n' {
            1int
        } else {
            0int
        }
    }
}

/// Whether a comment starts at `pos`: two slashes.
pub open spec fn comment_at(src: Seq<char>, pos: int) -> bool {
    0 <= pos && pos + 1 < src.len() && src[pos] == '/' && src[pos + 1] == '/'
}

/// Where the blanks and comments that start at `pos` end, and the line
/// there: each line feed passed adds one to the line. A comment runs up to
/// the next line feed.
pub open spec fn skip_blank(src: Seq<char>, pos: int, line: int) -> (int, int)
    decreases src.len() - pos, 1int,
{
    if pos < 0 || pos >= src.len() {
        (pos, line)
    } else if is_space_char(src[pos]) {
        skip_blank(src, pos + 1, line)
    } else if src[pos] == '\n' {
        skip_blank(src, pos + 1, line + 1)
    } else if comment_at(src, pos) {
        skip_comment(src, pos + 2, line)
    } else {
        (pos, line)
    }
}

/// [`skip_blank`] from inside a comment.
pub open spec fn skip_comment(src: Seq<char>, pos: int, line: int) -> (int, int)
    decreases src.len() - pos, 0int,
{
    if pos < 0 || pos >= src.len() {
        (pos, line)
    } else if src[pos] == '\n' {
        skip_blank(src, pos + 1, line + 1)
    } else {
        skip_comment(src, pos + 1, line)
    }
}

/// The token kind of a reserved word.
pub open spec fn keyword(word: Seq<char>) -> Option<TokenType> {
    if word == "and"@ {
        Some(TokenType::AND)
    } else if word == "class"@ {
        Some(TokenType::CLASS)
    } else if word == "else"@ {
        Some(TokenType::ELSE)
    } else if word == "false"@ {
        Some(TokenType::FALSE)
    } else if word == "for"@ {
        Some(TokenType::FOR)
    } else if word == "fn"@ {
        Some(TokenType::FUN)
    } else if word == "if"@ {
        Some(TokenType::IF)
    } else if word == "null"@ {
        Some(TokenType::NIL)
    } else if word == "or"@ {
        Some(TokenType::OR)
    } else if word == "print"@ {
        Some(TokenType::PRINT)
    } else if word == "return"@ {
        Some(TokenType::RETURN)
    } else if word == "super"@ {
        Some(TokenType::SUPER)
    } else if word == "this"@ {
        Some(TokenType::THIS)
    } else if word == "true"@ {
        Some(TokenType::TRUE)
    } else if word == "let"@ {
        Some(TokenType::VAR)
    } else if word == "while"@ {
        Some(TokenType::WHILE)
    } else {
        None
    }
}

/// The kind of the word `src[start..end]`: that of the reserved word it
/// spells, or an identifier.
pub open spec fn word_kind(src: Seq<char>, start: int, end: int) -> TokenType {
    match keyword(src.subrange(start, end)) {
        Some(kind) => kind,
        None => TokenType::IDENTIFIER,
    }
}

/// Where the number that starts at `start` ends: after its digits, and after
/// a point and more digits if a point and a digit follow.
pub open spec fn number_end(src: Seq<char>, start: int) -> int {
    let whole = digits_end(src, start);
    if whole + 1 < src.len() && src[whole] == '.' && is_digit_char(src[whole + 1]) {
        digits_end(src, whole + 1)
    } else {
        whole
    }
}

/// Whether the character at `pos` is `c`.
pub open spec fn holds(src: Seq<char>, pos: int, c: char) -> bool {
    0 <= pos < src.len() && src[pos] == c
}

/// The kind and the end of the operator or punctuation mark at `start`, if
/// one starts there.
pub open spec fn mark_at(src: Seq<char>, start: int) -> Option<(TokenType, int)> {
    let c = src[start];
    let wide = holds(src, start + 1, '=');
    if c == '(' {
        Some((TokenType::LeftParen, start + 1))
    } else if c == ')' {
        Some((TokenType::RightParen, start + 1))
    } else if c == '{' {
        Some((TokenType::LeftBrace, start + 1))
    } else if c == '}' {
        Some((TokenType::RightBrace, start + 1))
    } else if c == ';' {
        Some((TokenType::SEMICOLON, start + 1))
    } else if c == ',' {
        Some((TokenType::COMMA, start + 1))
    } else if c == '.' {
        Some((TokenType::DOT, start + 1))
    } else if c == '-' {
        Some((TokenType::MINUS, start + 1))
    } else if c == '+' {
        Some((TokenType::PLUS, start + 1))
    } else if c == '*' {
        Some((TokenType::STAR, start + 1))
    } else if c == '!' {
        Some(if wide { (TokenType::BangEqual, start + 2) } else { (TokenType::BANG, start + 1) })
    } else if c == '=' {
        Some(if wide { (TokenType::EqualEqual, start + 2) } else { (TokenType::EQUAL, start + 1) })
    } else if c == '<' {
        Some(if wide { (TokenType::LessEqual, start + 2) } else { (TokenType::LESS, start + 1) })
    } else if c == '>' {
        Some(
            if wide {
                (TokenType::GreaterEqual, start + 2)
            } else {
                (TokenType::GREATER, start + 1)
            },
        )
    } else if c == '/' {
        Some(if wide { (TokenType::SlashEqual, start + 2) } else { (TokenType::SLASH, start + 1) })
    } else {
        None
    }
}

/// What one scan yields: the token, and the position and line after it.
pub struct Scanned {
    pub token: TokenView,
    pub pos: int,
    pub line: int,
}

/// A token of `src[start..end]` that ends on `line`.
pub open spec fn token_of(
    kind: TokenType,
    line: int,
    start: int,
    end: int,
    literal: Option<Seq<char>>,
    message: Option<Seq<char>>,
) -> Scanned {
    Scanned {
        token: TokenView {
            token_type: kind,
            line: line as usize,
            start: start as usize,
            length: (end - start) as usize,
            literal,
            message,
        },
        pos: end,
        line,
    }
}

/// The token that starts at `start`, where no blank or comment starts and
/// the source has not ended.
///
/// - An operator or punctuation mark is one character, or two where `=`
///   follows `!`, `=`, `<`, `>` or `/`.
/// - A string runs from a double quote to the next one, over line feeds too;
///   its literal is the text between the quotes. Without a closing quote it
///   is an error token that takes the rest of the source.
/// - A number is digits, then possibly a point and digits; its literal is its
///   lexeme.
/// - A word is a letter or underscore and the word characters after it: a
///   reserved word, or an identifier with its lexeme as literal.
/// - Any other character is an error token of its own.
pub open spec fn token_at(src: Seq<char>, start: int, line: int) -> Scanned {
    let c = src[start];
    if mark_at(src, start).is_some() {
        let (kind, end) = mark_at(src, start).unwrap();
        token_of(kind, line, start, end, None, None)
    } else if c == '"' {
        let close = quote_at(src, start + 1);
        let last = line + line_feeds(src, start + 1, close);
        if close >= src.len() {
            token_of(
                TokenType::Error,
                last,
                start,
                close,
                None,
                Some("Unclosed string literal"@),
            )
        } else {
            token_of(
                TokenType::STRING,
                last,
                start,
                close + 1,
                Some(src.subrange(start + 1, close)),
                None,
            )
        }
    } else if is_digit_char(c) {
        let end = number_end(src, start);
        token_of(TokenType::NUMBER, line, start, end, Some(src.subrange(start, end)), None)
    } else if is_alpha_char(c) {
        let end = word_end(src, start);
        let kind = word_kind(src, start, end);
        token_of(
            kind,
            line,
            start,
            end,
            if kind == TokenType::IDENTIFIER {
                Some(src.subrange(start, end))
            } else {
                None
            },
            None,
        )
    } else {
        token_of(TokenType::Error, line, start, start + 1, None, Some("Unexpected character"@))
    }
}

/// One scan of `src` from `pos` on `line`: blanks and comments are passed
/// over; at the end of the source the token is `EOF`, of length 0; otherwise
/// it is the token that starts there.
pub open spec fn scan(src: Seq<char>, pos: int, line: int) -> Scanned {
    let (start, at) = skip_blank(src, pos, line);
    if start >= src.len() {
        token_of(TokenType::EOF, at, start, start, None, None)
    } else {
        token_at(src, start, at)
    }
}

/// The runs of the grammar end inside the source, at or after their start.
pub proof fn lemma_run_ends(src: Seq<char>, pos: int)
    requires
        0 <= pos <= src.len(),
    ensures
        pos <= line_end(src, pos) <= src.len(),
        pos <= digits_end(src, pos) <= src.len(),
        pos <= word_end(src, pos) <= src.len(),
        pos <= quote_at(src, pos) <= src.len(),
    decreases src.len() - pos,
{
    if pos < src.len() {
        lemma_run_ends(src, pos + 1);
    }
}

/// A stretch of the source holds no more line feeds than characters.
pub proof fn lemma_line_feeds(src: Seq<char>, from: int, to: int)
    requires
        0 <= from <= to <= src.len(),
    ensures
        0 <= line_feeds(src, from, to) <= to - from,
    decreases to - from,
{
    if from < to {
        lemma_line_feeds(src, from, to - 1);
    }
}

/// Passing over blanks and comments ends inside the source, at or after its
/// start, and adds to the line no more than the characters passed.
pub proof fn lemma_skip(src: Seq<char>, pos: int, line: int)
    requires
        0 <= pos <= src.len(),
    ensures
        pos <= skip_blank(src, pos, line).0 <= src.len(),
        line <= skip_blank(src, pos, line).1 <= line + (skip_blank(src, pos, line).0 - pos),
        pos <= skip_comment(src, pos, line).0 <= src.len(),
        line <= skip_comment(src, pos, line).1 <= line + (skip_comment(src, pos, line).0 - pos),
        !comment_at(src, skip_blank(src, pos, line).0),
        !comment_at(src, skip_comment(src, pos, line).0),
    decreases src.len() - pos,
{
    if pos < src.len() {
        lemma_skip(src, pos + 1, line);
        lemma_skip(src, pos + 1, line + 1);
        if pos + 2 <= src.len() {
            lemma_skip(src, pos + 2, line);
            lemma_skip(src, pos + 2, line + 1);
        }
    }
}

/// What every scan gives. The position does not go back and stays inside the
/// source. A token other than `EOF` takes at least one character, ends where
/// the scan ends, and `EOF` comes only at the end of the source. The line
/// grows by no more than the characters passed, and the token lies on the
/// line where the scan ends. A scan from past the end of the source gives
/// `EOF` and stays where it is.
pub proof fn lemma_scan(src: Seq<char>, pos: int, line: int)
    requires
        0 <= pos <= src.len(),
        0 <= line,
    ensures
        ({
            let s = scan(src, pos, line);
            &&& pos <= s.pos <= src.len()
            &&& line <= s.line <= line + (s.pos - pos)
            &&& s.token.token_type == TokenType::EOF ==> s.pos == src.len()
            &&& s.token.token_type != TokenType::EOF ==> pos < s.pos
            &&& (s.token.token_type == TokenType::Error) <==> s.token.message.is_some()
            &&& (s.line <= usize::MAX && src.len() <= usize::MAX) ==> {
                &&& s.token.line == s.line
                &&& pos <= s.token.start
                &&& s.token.start + s.token.length == s.pos
                &&& s.token.token_type != TokenType::EOF ==> s.token.length >= 1
            }
        }),
{
    let (start, at) = skip_blank(src, pos, line);
    lemma_skip(src, pos, line);
    if start < src.len() {
        lemma_run_ends(src, start);
        lemma_run_ends(src, start + 1);
        let close = quote_at(src, start + 1);
        lemma_line_feeds(src, start + 1, close);
        let whole = digits_end(src, start);
        if whole < src.len() {
            lemma_run_ends(src, whole + 1);
        }
        if is_alpha_char(src[start]) {
            assert(word_end(src, start) == word_end(src, start + 1));
        }
        if is_digit_char(src[start]) {
            assert(digits_end(src, start) == digits_end(src, start + 1));
        }
    }
}

} // verus!
