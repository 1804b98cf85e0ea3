use rslox::lox::error::{ErrorKind, ScanError};
use rslox::lox::scanner::Scanner;
use rslox::lox::token::{Object, Token, TokenType};

fn scan(source: &str) -> (Vec<Token>, Vec<ScanError>) {
    assert!(Scanner::fits(source));
    let mut scanner = Scanner::new(source.to_string());
    let tokens = scanner.scan_tokens();
    let errors = scanner.errors().clone();
    assert_eq!(scanner.had_error(), !errors.is_empty());
    (tokens, errors)
}

fn kinds(tokens: &[Token]) -> Vec<TokenType> {
    tokens.iter().map(|t| t.ttype).collect()
}

fn plain(ttype: TokenType, lexeme: &str, line: u32) -> Token {
    Token::token(ttype, lexeme.to_string(), None, line)
}

fn number(lexeme: &str, line: u32) -> Token {
    Token::token(
        TokenType::NUMBER,
        lexeme.to_string(),
        Some(Object::flt_lit(lexeme.to_string())),
        line,
    )
}

fn string(value: &str, line: u32) -> Token {
    Token::token(
        TokenType::STRING,
        format!("\"{}\"", value),
        Some(Object::str_lit(value.to_string())),
        line,
    )
}

fn eof(line: u32) -> Token {
    plain(TokenType::EOF, "", line)
}

fn value_of(token: &Token) -> f32 {
    match &token.literal {
        Some(Object::flt_lit(numeral)) => numeral.parse::<f32>().unwrap(),
        other => panic!("not a number literal: {:?}", other),
    }
}

#[test]
fn empty_source_is_one_eof() {
    let (tokens, errors) = scan("");
    assert_eq!(tokens, vec![eof(1)]);
    assert!(errors.is_empty());
}

#[test]
fn every_scan_ends_with_one_eof() {
    for source in ["", " ", "\n\n", "@", "\"abc", "var x = 10;", "// c", "1.", "a\"b\nc\"", "é"] {
        let (tokens, _) = scan(source);
        assert!(!tokens.is_empty());
        let last = tokens.last().unwrap();
        assert_eq!(last.ttype, TokenType::EOF);
        assert_eq!(last.lexeme, "");
        assert_eq!(last.literal, None);
        let lines = 1 + source.chars().filter(|c| *c == '\n').count() as u32;
        assert_eq!(last.line, lines);
        let eofs = tokens.iter().filter(|t| t.ttype == TokenType::EOF).count();
        assert_eq!(eofs, 1);
    }
}

#[test]
fn equal_equal_is_one_token() {
    let (tokens, errors) = scan("==");
    assert_eq!(tokens, vec![plain(TokenType::EQUAL_EQUAL, "==", 1), eof(1)]);
    assert!(errors.is_empty());
}

#[test]
fn bang_alone_is_bang() {
    let (tokens, errors) = scan("!");
    assert_eq!(tokens, vec![plain(TokenType::BANG, "!", 1), eof(1)]);
    assert!(errors.is_empty());
}

#[test]
fn operators_of_one_and_two_characters() {
    let (tokens, errors) = scan("! != = == < <= > >=");
    assert_eq!(
        tokens,
        vec![
            plain(TokenType::BANG, "!", 1),
            plain(TokenType::BANG_EQUAL, "!=", 1),
            plain(TokenType::EQUAL, "=", 1),
            plain(TokenType::EQUAL_EQUAL, "==", 1),
            plain(TokenType::LESS, "<", 1),
            plain(TokenType::LESS_EQUAL, "<=", 1),
            plain(TokenType::GREATER, ">", 1),
            plain(TokenType::GREATER_EQUAL, ">=", 1),
            eof(1),
        ]
    );
    assert!(errors.is_empty());
}

#[test]
fn three_equals_are_two_tokens() {
    let (tokens, _) = scan("===");
    assert_eq!(
        tokens,
        vec![plain(TokenType::EQUAL_EQUAL, "==", 1), plain(TokenType::EQUAL, "=", 1), eof(1)]
    );
    let (tokens, _) = scan("!==");
    assert_eq!(
        tokens,
        vec![plain(TokenType::BANG_EQUAL, "!=", 1), plain(TokenType::EQUAL, "=", 1), eof(1)]
    );
    let (tokens, _) = scan("= =");
    assert_eq!(kinds(&tokens), vec![TokenType::EQUAL, TokenType::EQUAL, TokenType::EOF]);
}

#[test]
fn punctuation_is_one_token_each() {
    let (tokens, errors) = scan("(){},.-+;/*");
    assert_eq!(
        tokens,
        vec![
            plain(TokenType::LEFT_PAREN, "(", 1),
            plain(TokenType::RIGHT_PAREN, ")", 1),
            plain(TokenType::LEFT_BRACE, "{", 1),
            plain(TokenType::RIGHT_BRACE, "}", 1),
            plain(TokenType::COMMA, ",", 1),
            plain(TokenType::DOT, ".", 1),
            plain(TokenType::MINUS, "-", 1),
            plain(TokenType::PLUS, "+", 1),
            plain(TokenType::SEMICOLON, ";", 1),
            plain(TokenType::SLASH, "/", 1),
            plain(TokenType::STAR, "*", 1),
            eof(1),
        ]
    );
    assert!(errors.is_empty());
}

#[test]
fn comment_gives_no_token_but_its_newline_counts() {
    let (tokens, errors) = scan("// comment\n123");
    assert_eq!(tokens, vec![number("123", 2), eof(2)]);
    assert_eq!(value_of(&tokens[0]), 123.0);
    assert!(errors.is_empty());
}

#[test]
fn comment_runs_to_the_end_of_the_source() {
    let (tokens, errors) = scan("1 // no newline \" @ behind");
    assert_eq!(tokens, vec![number("1", 1), eof(1)]);
    assert!(errors.is_empty());
    let (tokens, _) = scan("//");
    assert_eq!(tokens, vec![eof(1)]);
}

#[test]
fn slash_alone_divides() {
    let (tokens, _) = scan("8 / 2");
    assert_eq!(
        tokens,
        vec![number("8", 1), plain(TokenType::SLASH, "/", 1), number("2", 1), eof(1)]
    );
    let (tokens, _) = scan("/");
    assert_eq!(tokens, vec![plain(TokenType::SLASH, "/", 1), eof(1)]);
    let (tokens, _) = scan("/ /");
    assert_eq!(kinds(&tokens), vec![TokenType::SLASH, TokenType::SLASH, TokenType::EOF]);
}

#[test]
fn number_with_fraction_is_one_token() {
    let (tokens, errors) = scan("1.5");
    assert_eq!(tokens, vec![number("1.5", 1), eof(1)]);
    assert_eq!(value_of(&tokens[0]), 1.5);
    assert!(errors.is_empty());
}

#[test]
fn point_without_digit_is_not_part_of_the_number() {
    let (tokens, errors) = scan("1.");
    assert_eq!(tokens, vec![number("1", 1), plain(TokenType::DOT, ".", 1), eof(1)]);
    assert_eq!(value_of(&tokens[0]), 1.0);
    assert!(errors.is_empty());
}

#[test]
fn number_takes_one_point_only() {
    let (tokens, _) = scan("1.5.6");
    assert_eq!(
        tokens,
        vec![number("1.5", 1), plain(TokenType::DOT, ".", 1), number("6", 1), eof(1)]
    );
    let (tokens, _) = scan(".5");
    assert_eq!(tokens, vec![plain(TokenType::DOT, ".", 1), number("5", 1), eof(1)]);
    let (tokens, _) = scan("12.x");
    assert_eq!(
        tokens,
        vec![
            number("12", 1),
            plain(TokenType::DOT, ".", 1),
            plain(TokenType::IDENTIFIER, "x", 1),
            eof(1)
        ]
    );
    let (tokens, _) = scan("-7");
    assert_eq!(tokens, vec![plain(TokenType::MINUS, "-", 1), number("7", 1), eof(1)]);
}

#[test]
fn number_keeps_every_digit() {
    let (tokens, _) = scan("0012345678901234567890.0123456789");
    assert_eq!(tokens, vec![number("0012345678901234567890.0123456789", 1), eof(1)]);
    assert_eq!(value_of(&tokens[0]), 12345678901234567890.0123456789_f32);
}

#[test]
fn unterminated_string_is_one_error_and_no_token() {
    let (tokens, errors) = scan("\"abc");
    assert_eq!(tokens, vec![eof(1)]);
    assert_eq!(errors, vec![ScanError { kind: ErrorKind::UnterminatedString, line: 1 }]);
}

#[test]
fn unterminated_string_is_reported_on_the_last_line() {
    let (tokens, errors) = scan("1\n\"abc\ndef\n");
    assert_eq!(tokens, vec![number("1", 1), eof(4)]);
    assert_eq!(errors, vec![ScanError { kind: ErrorKind::UnterminatedString, line: 4 }]);
    let (tokens, errors) = scan("\"");
    assert_eq!(tokens, vec![eof(1)]);
    assert_eq!(errors, vec![ScanError { kind: ErrorKind::UnterminatedString, line: 1 }]);
}

#[test]
fn declaration_with_keyword_and_number() {
    let (tokens, errors) = scan("var x = 10;");
    assert_eq!(
        tokens,
        vec![
            plain(TokenType::VAR, "var", 1),
            plain(TokenType::IDENTIFIER, "x", 1),
            plain(TokenType::EQUAL, "=", 1),
            number("10", 1),
            plain(TokenType::SEMICOLON, ";", 1),
            eof(1),
        ]
    );
    assert_eq!(value_of(&tokens[3]), 10.0);
    assert!(errors.is_empty());
}

#[test]
fn scanning_twice_gives_the_same() {
    for source in ["var x = 10;", "\"a\nb\" @ 1.5 // c\n !=", "", "#\"open"] {
        let first = scan(source);
        let second = scan(source);
        assert_eq!(first, second);
    }
}

#[test]
fn scanning_on_after_the_end_gives_eof_alone() {
    let mut scanner = Scanner::new("a @\nb".to_string());
    let first = scanner.scan_tokens();
    assert_eq!(first.len(), 3);
    let second = scanner.scan_tokens();
    assert_eq!(second, vec![eof(2)]);
    assert_eq!(
        scanner.errors(),
        &vec![ScanError { kind: ErrorKind::UnexpectedCharacter, line: 1 }]
    );
}

#[test]
fn string_over_three_lines_moves_the_line_on_by_two() {
    let (tokens, errors) = scan("a \"one\ntwo\nthree\" b");
    assert_eq!(
        tokens,
        vec![
            plain(TokenType::IDENTIFIER, "a", 1),
            string("one\ntwo\nthree", 3),
            plain(TokenType::IDENTIFIER, "b", 3),
            eof(3),
        ]
    );
    assert!(errors.is_empty());
}

#[test]
fn string_value_is_the_text_between_the_quotes() {
    let (tokens, errors) = scan("\"abc\"");
    assert_eq!(tokens, vec![string("abc", 1), eof(1)]);
    assert_eq!(tokens[0].lexeme, "\"abc\"");
    assert_eq!(tokens[0].literal, Some(Object::str_lit("abc".to_string())));
    assert!(errors.is_empty());
    let (tokens, _) = scan("\"\"");
    assert_eq!(tokens, vec![string("", 1), eof(1)]);
}

#[test]
fn string_escapes_are_not_processed() {
    let (tokens, errors) = scan("\"a\\nb\"");
    assert_eq!(tokens, vec![string("a\\nb", 1), eof(1)]);
    assert!(errors.is_empty());
    // A backslash does not protect a quote: the string ends at the first one.
    let (tokens, errors) = scan("\"a\\\"b");
    assert_eq!(tokens, vec![string("a\\", 1), plain(TokenType::IDENTIFIER, "b", 1), eof(1)]);
    assert!(errors.is_empty());
}

#[test]
fn string_holds_any_character() {
    let (tokens, errors) = scan("\"// é @ \u{0} 1.5\"+");
    assert_eq!(tokens, vec![string("// é @ \u{0} 1.5", 1), plain(TokenType::PLUS, "+", 1), eof(1)]);
    assert!(errors.is_empty());
}

#[test]
fn reserved_words_have_their_own_kinds() {
    let words = [
        ("and", TokenType::AND),
        ("class", TokenType::CLASS),
        ("else", TokenType::ELSE),
        ("false", TokenType::FALSE),
        ("for", TokenType::FOR),
        ("fun", TokenType::FUN),
        ("if", TokenType::IF),
        ("nil", TokenType::NIL),
        ("or", TokenType::OR),
        ("print", TokenType::PRINT),
        ("return", TokenType::RETURN),
        ("super", TokenType::SUPER),
        ("this", TokenType::THIS),
        ("true", TokenType::TRUE),
        ("var", TokenType::VAR),
        ("while", TokenType::WHILE),
    ];
    for (word, kind) in words {
        let (tokens, errors) = scan(word);
        assert_eq!(tokens, vec![plain(kind, word, 1), eof(1)]);
        assert!(errors.is_empty());
    }
}

#[test]
fn identifiers_take_letters_digits_and_underscores() {
    for word in ["x", "_", "_x1", "classy", "Var", "VAR", "or_", "nil0", "a1b2_c3", "eof", "EOF"] {
        let (tokens, errors) = scan(word);
        assert_eq!(tokens, vec![plain(TokenType::IDENTIFIER, word, 1), eof(1)]);
        assert!(errors.is_empty());
    }
    let (tokens, _) = scan("ab+cd");
    assert_eq!(
        tokens,
        vec![
            plain(TokenType::IDENTIFIER, "ab", 1),
            plain(TokenType::PLUS, "+", 1),
            plain(TokenType::IDENTIFIER, "cd", 1),
            eof(1)
        ]
    );
    let (tokens, _) = scan("1abc");
    assert_eq!(tokens, vec![number("1", 1), plain(TokenType::IDENTIFIER, "abc", 1), eof(1)]);
}

#[test]
fn white_space_gives_no_token() {
    let (tokens, errors) = scan(" \t\r ");
    assert_eq!(tokens, vec![eof(1)]);
    assert!(errors.is_empty());
    let (tokens, errors) = scan(" a\t\tb\r\n c ");
    assert_eq!(
        tokens,
        vec![
            plain(TokenType::IDENTIFIER, "a", 1),
            plain(TokenType::IDENTIFIER, "b", 1),
            plain(TokenType::IDENTIFIER, "c", 2),
            eof(2)
        ]
    );
    assert!(errors.is_empty());
}

#[test]
fn newline_moves_the_line_on() {
    let (tokens, _) = scan("a\nb\n\nc\n");
    assert_eq!(
        tokens,
        vec![
            plain(TokenType::IDENTIFIER, "a", 1),
            plain(TokenType::IDENTIFIER, "b", 2),
            plain(TokenType::IDENTIFIER, "c", 4),
            eof(5)
        ]
    );
}

#[test]
fn unexpected_character_is_reported_and_passed_over() {
    let (tokens, errors) = scan("@");
    assert_eq!(tokens, vec![eof(1)]);
    assert_eq!(errors, vec![ScanError { kind: ErrorKind::UnexpectedCharacter, line: 1 }]);
    let (tokens, errors) = scan("1 # 2\n$ 3 @@");
    assert_eq!(tokens, vec![number("1", 1), number("2", 1), number("3", 2), eof(2)]);
    assert_eq!(
        errors,
        vec![
            ScanError { kind: ErrorKind::UnexpectedCharacter, line: 1 },
            ScanError { kind: ErrorKind::UnexpectedCharacter, line: 2 },
            ScanError { kind: ErrorKind::UnexpectedCharacter, line: 2 },
            ScanError { kind: ErrorKind::UnexpectedCharacter, line: 2 },
        ]
    );
}

#[test]
fn characters_beyond_ascii_are_single_units() {
    let (tokens, errors) = scan("é+ü\"ß→\"x");
    assert_eq!(
        tokens,
        vec![
            plain(TokenType::PLUS, "+", 1),
            string("ß→", 1),
            plain(TokenType::IDENTIFIER, "x", 1),
            eof(1)
        ]
    );
    assert_eq!(
        errors,
        vec![
            ScanError { kind: ErrorKind::UnexpectedCharacter, line: 1 },
            ScanError { kind: ErrorKind::UnexpectedCharacter, line: 1 },
        ]
    );
    let (tokens, errors) = scan("\u{0}a");
    assert_eq!(tokens, vec![plain(TokenType::IDENTIFIER, "a", 1), eof(1)]);
    assert_eq!(errors, vec![ScanError { kind: ErrorKind::UnexpectedCharacter, line: 1 }]);
}

#[test]
fn errors_and_tokens_keep_their_order() {
    let (tokens, errors) = scan("a @ \"s\" # b\n\"open");
    assert_eq!(
        tokens,
        vec![
            plain(TokenType::IDENTIFIER, "a", 1),
            string("s", 1),
            plain(TokenType::IDENTIFIER, "b", 1),
            eof(2)
        ]
    );
    assert_eq!(
        errors,
        vec![
            ScanError { kind: ErrorKind::UnexpectedCharacter, line: 1 },
            ScanError { kind: ErrorKind::UnexpectedCharacter, line: 1 },
            ScanError { kind: ErrorKind::UnterminatedString, line: 2 },
        ]
    );
}

#[test]
fn small_program() {
    let source = "fun add(a, b) {\n  // sum\n  return a + b;\n}\nprint add(1, 2.5) >= 3 and !false;\n";
    let (tokens, errors) = scan(source);
    assert_eq!(
        tokens,
        vec![
            plain(TokenType::FUN, "fun", 1),
            plain(TokenType::IDENTIFIER, "add", 1),
            plain(TokenType::LEFT_PAREN, "(", 1),
            plain(TokenType::IDENTIFIER, "a", 1),
            plain(TokenType::COMMA, ",", 1),
            plain(TokenType::IDENTIFIER, "b", 1),
            plain(TokenType::RIGHT_PAREN, ")", 1),
            plain(TokenType::LEFT_BRACE, "{", 1),
            plain(TokenType::RETURN, "return", 3),
            plain(TokenType::IDENTIFIER, "a", 3),
            plain(TokenType::PLUS, "+", 3),
            plain(TokenType::IDENTIFIER, "b", 3),
            plain(TokenType::SEMICOLON, ";", 3),
            plain(TokenType::RIGHT_BRACE, "}", 4),
            plain(TokenType::PRINT, "print", 5),
            plain(TokenType::IDENTIFIER, "add", 5),
            plain(TokenType::LEFT_PAREN, "(", 5),
            number("1", 5),
            plain(TokenType::COMMA, ",", 5),
            number("2.5", 5),
            plain(TokenType::RIGHT_PAREN, ")", 5),
            plain(TokenType::GREATER_EQUAL, ">=", 5),
            number("3", 5),
            plain(TokenType::AND, "and", 5),
            plain(TokenType::BANG, "!", 5),
            plain(TokenType::FALSE, "false", 5),
            plain(TokenType::SEMICOLON, ";", 5),
            eof(6),
        ]
    );
    assert!(errors.is_empty());
}

#[test]
fn lexemes_and_skipped_text_make_up_the_source() {
    let source = "var a=1.5;\nprint\ta>=\"x\ny\";";
    let (tokens, _) = scan(source);
    let joined: String = tokens.iter().map(|t| t.lexeme.as_str()).collect();
    let dense: String = source.chars().filter(|c| !" \t\r\n".contains(*c)).collect();
    assert_eq!(joined.replace('\n', ""), dense);
}

#[test]
fn long_source_is_scanned_to_the_end() {
    let mut source = String::new();
    for _ in 0..20000 {
        source.push_str("x1 = 2.5; // c\n");
    }
    let (tokens, errors) = scan(&source);
    assert_eq!(tokens.len(), 4 * 20000 + 1);
    assert_eq!(tokens.last().unwrap().line, 20001);
    assert!(errors.is_empty());
}

#[test]
fn token_holds_what_it_was_made_of() {
    let token = Token::token(
        TokenType::STRING,
        "\"hi\"".to_string(),
        Some(Object::str_lit("hi".to_string())),
        7,
    );
    assert_eq!(token.ttype, TokenType::STRING);
    assert_eq!(token.lexeme, "\"hi\"");
    assert_eq!(token.literal, Some(Object::str_lit("hi".to_string())));
    assert_eq!(token.line, 7);
}

#[test]
fn error_kinds_have_their_wording() {
    assert_eq!(ErrorKind::UnexpectedCharacter.message(), "Unexpected character.");
    assert_eq!(ErrorKind::UnterminatedString.message(), "Unterminated string.");
}

#[test]
fn ordinary_sources_fit() {
    assert!(Scanner::fits(""));
    assert!(Scanner::fits("a\nb\nc"));
    assert!(Scanner::fits(&"\n".repeat(100000)));
}
