use rlox::chunk::{Chunk, OpCode, OpCodeKind};
use rlox::compiler::Local;
use rlox::errors::{ErrorPlace, ParsingError};
use rlox::parser::Parser;
use rlox::precedence::{get_rule, ParseFn, Precedence};
use rlox::scanner::Scanner;
use rlox::text::{decimal_string, pad_right};
use rlox::token::{Token, TokenType};
use rlox::value::Value;

fn tokens(source: &str) -> Vec<Token> {
    let mut scanner = Scanner::new(source);
    let mut out = Vec::new();
    loop {
        let token = scanner.scan_token();
        let last = token.token_type == TokenType::EOF || token.token_type == TokenType::Error;
        out.push(token);
        if last {
            return out;
        }
    }
}

fn kinds(source: &str) -> Vec<TokenType> {
    tokens(source).iter().map(|t| t.token_type).collect()
}

#[test]
fn punctuation_and_operators() {
    assert_eq!(
        kinds("( ) { } ; , . - + * / ! != = == < <= > >= /="),
        vec![
            TokenType::LeftParen,
            TokenType::RightParen,
            TokenType::LeftBrace,
            TokenType::RightBrace,
            TokenType::SEMICOLON,
            TokenType::COMMA,
            TokenType::DOT,
            TokenType::MINUS,
            TokenType::PLUS,
            TokenType::STAR,
            TokenType::SLASH,
            TokenType::BANG,
            TokenType::BangEqual,
            TokenType::EQUAL,
            TokenType::EqualEqual,
            TokenType::LESS,
            TokenType::LessEqual,
            TokenType::GREATER,
            TokenType::GreaterEqual,
            TokenType::SlashEqual,
            TokenType::EOF,
        ]
    );
    assert_eq!(kinds("!==="), vec![TokenType::BangEqual, TokenType::EqualEqual, TokenType::EOF]);
    assert_eq!(kinds("1/2"), vec![TokenType::NUMBER, TokenType::SLASH, TokenType::NUMBER, TokenType::EOF]);
}

#[test]
fn reserved_words_and_identifiers() {
    assert_eq!(
        kinds("and class else false for fn if null or print return super this true let while"),
        vec![
            TokenType::AND,
            TokenType::CLASS,
            TokenType::ELSE,
            TokenType::FALSE,
            TokenType::FOR,
            TokenType::FUN,
            TokenType::IF,
            TokenType::NIL,
            TokenType::OR,
            TokenType::PRINT,
            TokenType::RETURN,
            TokenType::SUPER,
            TokenType::THIS,
            TokenType::TRUE,
            TokenType::VAR,
            TokenType::WHILE,
            TokenType::EOF,
        ]
    );
    let found = tokens("lets _x1 Print nil var x_");
    let names: Vec<Option<String>> = found.iter().map(|t| t.literal.clone()).collect();
    assert_eq!(
        names,
        vec![
            Some("lets".to_string()),
            Some("_x1".to_string()),
            Some("Print".to_string()),
            Some("nil".to_string()),
            Some("var".to_string()),
            Some("x_".to_string()),
            None
        ]
    );
    assert!(found[..6].iter().all(|t| t.token_type == TokenType::IDENTIFIER));
    assert!(tokens("print let").iter().all(|t| t.literal.is_none()));
}

#[test]
fn numbers_take_a_fraction_only_with_digits() {
    let found = tokens("12 3.25 4. .5 6.7.8");
    let shown: Vec<(TokenType, Option<String>, usize, usize)> =
        found.iter().map(|t| (t.token_type, t.literal.clone(), t.start, t.length)).collect();
    assert_eq!(
        shown,
        vec![
            (TokenType::NUMBER, Some("12".to_string()), 0, 2),
            (TokenType::NUMBER, Some("3.25".to_string()), 3, 4),
            (TokenType::NUMBER, Some("4".to_string()), 8, 1),
            (TokenType::DOT, None, 9, 1),
            (TokenType::DOT, None, 11, 1),
            (TokenType::NUMBER, Some("5".to_string()), 12, 1),
            (TokenType::NUMBER, Some("6.7".to_string()), 14, 3),
            (TokenType::DOT, None, 17, 1),
            (TokenType::NUMBER, Some("8".to_string()), 18, 1),
            (TokenType::EOF, None, 19, 0),
        ]
    );
}

#[test]
fn strings_hold_what_is_between_the_quotes() {
    let found = tokens("\"\" \"a b\" \"two\nlines\" x");
    assert_eq!(found[0].token_type, TokenType::STRING);
    assert_eq!(found[0].literal, Some("".to_string()));
    assert_eq!((found[0].start, found[0].length, found[0].line), (0, 2, 1));
    assert_eq!(found[1].literal, Some("a b".to_string()));
    assert_eq!((found[1].start, found[1].length), (3, 5));
    assert_eq!(found[2].literal, Some("two\nlines".to_string()));
    assert_eq!(found[2].line, 2);
    assert_eq!(found[3].token_type, TokenType::IDENTIFIER);
    assert_eq!(found[3].line, 2);
}

#[test]
fn an_unclosed_string_is_an_error_token() {
    let found = tokens("1 \"open\n\n");
    let last = found.last().unwrap();
    assert_eq!(last.token_type, TokenType::Error);
    assert_eq!(last.message, Some("Unclosed string literal".to_string()));
    assert_eq!(last.line, 3);
    assert_eq!((last.start, last.length), (2, 7));
    assert_eq!(last.literal, None);
}

#[test]
fn an_unexpected_character_is_an_error_token() {
    let found = tokens("a # b");
    assert_eq!(found.len(), 2);
    assert_eq!(found[1].token_type, TokenType::Error);
    assert_eq!(found[1].message, Some("Unexpected character".to_string()));
    assert_eq!((found[1].start, found[1].length, found[1].line), (2, 1, 1));
    assert_eq!(kinds("é"), vec![TokenType::Error]);
    assert_eq!(kinds("\0"), vec![TokenType::Error]);
}

#[test]
fn blanks_comments_and_lines() {
    let found = tokens(" \t\r\n// all of this line\n  x // and this\n\n/ y //");
    let shown: Vec<(TokenType, usize, usize)> =
        found.iter().map(|t| (t.token_type, t.line, t.start)).collect();
    assert_eq!(
        shown,
        vec![
            (TokenType::IDENTIFIER, 3, 26),
            (TokenType::SLASH, 5, 41),
            (TokenType::IDENTIFIER, 5, 43),
            (TokenType::EOF, 5, 47),
        ]
    );
    assert_eq!(kinds(""), vec![TokenType::EOF]);
    assert_eq!(kinds("//"), vec![TokenType::EOF]);
    assert_eq!(kinds("\n\n"), vec![TokenType::EOF]);
}

#[test]
fn the_end_of_the_source_is_given_again_and_again() {
    let mut scanner = Scanner::new("x");
    assert_eq!(scanner.scan_token().token_type, TokenType::IDENTIFIER);
    for _ in 0..3 {
        let token = scanner.scan_token();
        assert_eq!(token.token_type, TokenType::EOF);
        assert_eq!((token.start, token.length, token.line), (1, 0, 1));
    }
}

#[test]
fn characters_are_counted_not_bytes() {
    let found = tokens("\"é\" x");
    assert_eq!(found[0].literal, Some("é".to_string()));
    assert_eq!((found[0].start, found[0].length), (0, 3));
    assert_eq!(found[1].start, 4);
    let scanner = Scanner::new("añb");
    assert_eq!(scanner.substr(1, 2), "ñ");
    assert_eq!(scanner.substr(0, 3), "añb");
    assert_eq!(scanner.substr(2, 9), "b");
    assert_eq!(scanner.substr(7, 9), "");
}

#[test]
fn a_token_keeps_what_it_is_given() {
    let token = Token::new(TokenType::NUMBER, 3, 4, 2, Some("12".to_string()), None);
    assert_eq!(token.token_type, TokenType::NUMBER);
    assert_eq!((token.line, token.start, token.length), (3, 4, 2));
    assert_eq!(token.literal, Some("12".to_string()));
    assert_eq!(token.message, None);
    let error = Token::new(TokenType::Error, 1, 0, 1, None, Some("bad".to_string()));
    assert_eq!(error.message, Some("bad".to_string()));
    let copy = token.copy();
    assert_eq!(copy.literal, token.literal);
    assert_eq!(copy.start, token.start);
}

#[test]
fn a_parser_starts_without_tokens_and_a_local_without_a_value() {
    let parser = Parser::new();
    assert!(parser.current.is_none());
    assert!(parser.previous.is_none());
    let name = Token::new(TokenType::IDENTIFIER, 1, 0, 1, Some("a".to_string()), None);
    let mut local = Local::new(name, 2, false);
    assert_eq!(local.depth, 2);
    assert!(!local.is_initialized);
    local.mark_initialized();
    assert!(local.is_initialized);
    assert_eq!(local.name.literal, Some("a".to_string()));
    assert_eq!(local.depth, 2);
}

#[test]
fn the_rule_table() {
    let rule = get_rule(TokenType::MINUS);
    assert_eq!(rule.prefix, Some(ParseFn::Unary));
    assert_eq!(rule.infix, Some(ParseFn::Binary));
    assert_eq!(rule.precedence, Precedence::Term);
    assert_eq!(get_rule(TokenType::PLUS).prefix, None);
    assert_eq!(get_rule(TokenType::STAR).precedence, Precedence::Factor);
    assert_eq!(get_rule(TokenType::SLASH).precedence, Precedence::Factor);
    assert_eq!(get_rule(TokenType::BangEqual).precedence, Precedence::Eq);
    assert_eq!(get_rule(TokenType::EqualEqual).precedence, Precedence::Eq);
    for kind in [TokenType::LESS, TokenType::LessEqual, TokenType::GREATER, TokenType::GreaterEqual] {
        assert_eq!(get_rule(kind).precedence, Precedence::Comparison);
        assert_eq!(get_rule(kind).infix, Some(ParseFn::Binary));
    }
    assert_eq!(get_rule(TokenType::LeftParen).prefix, Some(ParseFn::Grouping));
    assert_eq!(get_rule(TokenType::BANG).prefix, Some(ParseFn::Unary));
    assert_eq!(get_rule(TokenType::BANG).infix, None);
    assert_eq!(get_rule(TokenType::IDENTIFIER).prefix, Some(ParseFn::Variable));
    assert_eq!(get_rule(TokenType::STRING).prefix, Some(ParseFn::String));
    assert_eq!(get_rule(TokenType::NUMBER).prefix, Some(ParseFn::Number));
    for kind in [TokenType::TRUE, TokenType::FALSE, TokenType::NIL] {
        assert_eq!(get_rule(kind).prefix, Some(ParseFn::Literal));
    }
    for kind in [TokenType::EQUAL, TokenType::AND, TokenType::OR, TokenType::EOF, TokenType::SEMICOLON] {
        let rule = get_rule(kind);
        assert_eq!((rule.prefix, rule.infix, rule.precedence), (None, None, Precedence::NONE));
    }
}

#[test]
fn the_precedence_ladder() {
    let ladder = [
        Precedence::NONE,
        Precedence::Assignment,
        Precedence::Or,
        Precedence::And,
        Precedence::Eq,
        Precedence::Comparison,
        Precedence::Term,
        Precedence::Factor,
        Precedence::Unary,
        Precedence::Call,
        Precedence::Primary,
    ];
    for (i, level) in ladder.iter().enumerate() {
        assert_eq!(level.level() as usize, i);
        if i + 1 < ladder.len() {
            assert_eq!(level.next_precedence(), ladder[i + 1]);
        }
    }
    assert_eq!(Precedence::Primary.next_precedence(), Precedence::Assignment);
}

#[test]
fn numerals_and_padding() {
    assert_eq!(decimal_string(0), "0");
    assert_eq!(decimal_string(7), "7");
    assert_eq!(decimal_string(10), "10");
    assert_eq!(decimal_string(120), "120");
    assert_eq!(decimal_string(9876543210), "9876543210");
    assert_eq!(decimal_string(usize::MAX), usize::MAX.to_string());
    assert_eq!(pad_right("ab".to_string(), 5), "ab   ");
    assert_eq!(pad_right("abcde".to_string(), 5), "abcde");
    assert_eq!(pad_right("abcdef".to_string(), 5), "abcdef");
    assert_eq!(pad_right("".to_string(), 0), "");
}

#[test]
fn listings() {
    assert_eq!(OpCodeKind::Add.display(), "OP_ADD             ");
    assert_eq!(OpCodeKind::Const { const_idx: 12 }.display(), "OP_CONST     12    ");
    assert_eq!(OpCodeKind::DefineGlobal { name_idx: 3 }.display(), "OP_DEFINE_GLOBAL 3     ");
    assert_eq!(OpCodeKind::ReadLocal { name_idx: 1234567 }.display(), "OP_READ_LOCAL 1234567");
    assert_eq!(OpCode::new(OpCodeKind::Print, 42).display(), "OP_PRINT            L42");
    let mut chunk = Chunk::new();
    assert!(chunk.is_empty());
    assert_eq!(chunk.display(), "");
    assert_eq!(chunk.push_const(Value::Null), 0);
    assert_eq!(chunk.push_const(Value::Boolean(true)), 1);
    chunk.push(OpCode::new(OpCodeKind::Const { const_idx: 1 }, 1));
    assert_eq!(chunk.display(), "0   OP_CONST     1      L1");
    chunk.push(OpCode::new(OpCodeKind::Pop, 2));
    assert_eq!(chunk.display(), "0   OP_CONST     1      L1\n1   OP_POP              L2");
    assert!(!chunk.is_empty());
    assert_eq!(chunk.len(), 2);
    assert_eq!(chunk.get(1).unwrap().line(), 2);
    assert_eq!(*chunk.get(1).unwrap().kind(), OpCodeKind::Pop);
    assert!(chunk.get(2).is_none());
    assert_eq!(chunk.get_const(1), Some(&Value::Boolean(true)));
    assert!(chunk.get_const(2).is_none());
}

#[test]
fn parse_errors_are_reported_in_one_line() {
    let at_end = ParsingError { line: 3, place: ErrorPlace::End, message: "Expected ';'".to_string() };
    assert_eq!(at_end.report(), "[line 3] Error at end: Expected ';'");
    let at_token = ParsingError {
        line: 12,
        place: ErrorPlace::Lexeme("=".to_string()),
        message: "Invalid assignment target".to_string(),
    };
    assert_eq!(at_token.report(), "[line 12] Error at '=': Invalid assignment target");
    let unformed = ParsingError {
        line: 1,
        place: ErrorPlace::Unformed,
        message: "Unexpected character".to_string(),
    };
    assert_eq!(unformed.report(), "[line 1] Error: Unexpected character");
}
