use rlox::scanner::{malformed_number, pretty, scan, try_scan, LiteralValue, Token};
use rlox::token::{ScannerError, TokenType};

fn kinds(tokens: &[Token]) -> Vec<TokenType> {
    tokens.iter().map(|t| t.token_type).collect()
}

fn text(s: &str) -> Option<LiteralValue> {
    Some(LiteralValue::String(s.to_string()))
}

fn numeral(s: &str) -> Option<LiteralValue> {
    Some(LiteralValue::Number(s.to_string()))
}

#[test]
fn test_token_debug() {
    let token =
        Token::new(TokenType::Identifier, Some(LiteralValue::String("test".to_string())), 1, 1);
    assert_eq!(token.to_text(), "Identifier(1,1)[test]");
}

#[test]
fn test_many_tokens() {
    let source = "// this is a comment
(( )){} // grouping stuff
!*+-/=<> <= == // operators";

    let (tokens, errors) = scan(source);
    assert_eq!(tokens.len(), 17);
    assert_eq!(tokens.last().unwrap().token_type, TokenType::Eof);
    assert!(errors.is_empty());
    assert_eq!(
        kinds(&tokens),
        vec![
            TokenType::LeftParen,
            TokenType::LeftParen,
            TokenType::RightParen,
            TokenType::RightParen,
            TokenType::LeftBrace,
            TokenType::RightBrace,
            TokenType::Bang,
            TokenType::Star,
            TokenType::Plus,
            TokenType::Minus,
            TokenType::Slash,
            TokenType::Equal,
            TokenType::Less,
            TokenType::Greater,
            TokenType::LessEqual,
            TokenType::EqualEqual,
            TokenType::Eof,
        ]
    );
}

#[test]
fn test_string() {
    let source = "\"Hello, world!\"";
    let (tokens, _) = scan(source);
    assert_eq!(tokens.len(), 2);
    assert_eq!(tokens[0].token_type, TokenType::String);
    assert_eq!(tokens[0].literal, Some(LiteralValue::String("Hello, world!".to_string())));
    assert_eq!(tokens[1].token_type, TokenType::Eof);
}

#[test]
fn test_number() {
    let source = "123.456";
    let (tokens, _) = scan(source);
    assert_eq!(tokens.len(), 2);
    assert_eq!(tokens[0].token_type, TokenType::Number);
    assert_eq!(tokens[0].literal, Some(LiteralValue::Number("123.456".to_string())));
    match &tokens[0].literal {
        Some(LiteralValue::Number(n)) => assert_eq!(n.parse::<f64>(), Ok(123.456)),
        other => panic!("not a number: {:?}", other),
    }
}

#[test]
fn test_identifier() {
    let source = "identifier";
    let (tokens, _) = scan(source);
    assert_eq!(tokens.len(), 2);
    assert_eq!(tokens[0].token_type, TokenType::Identifier);
    assert_eq!(tokens[0].literal, Some(LiteralValue::String("identifier".to_string())));
}

#[test]
fn test_keyword() {
    let source = "and";
    let (tokens, _) = scan(source);
    assert_eq!(tokens.len(), 2);
    assert_eq!(tokens[0].token_type, TokenType::And);
}

#[test]
fn test_multiline_comment() {
    let source = "/* this is a comment */
        /* this is also a comment
        but this is a multiline comment */";
    let (tokens, _) = scan(source);
    assert_eq!(tokens.len(), 1);
    assert_eq!(tokens[0].token_type, TokenType::Eof);
    assert_eq!(tokens[0].line, 3);
}

#[test]
fn empty_text_has_only_eof() {
    let (tokens, errors) = scan("");
    assert_eq!(tokens, vec![Token::eof(1, 1)]);
    assert!(errors.is_empty());
}

#[test]
fn blank_text_has_only_eof() {
    let (tokens, errors) = scan(" \t\r\n  \n ");
    assert_eq!(tokens, vec![Token::eof(3, 2)]);
    assert!(errors.is_empty());
}

#[test]
fn every_text_ends_in_one_eof() {
    for source in ["", "\"abc", "/* abc", "@@@", "var x = 1;", "\n\n", "1.", "a.b(c)"] {
        let (tokens, _) = scan(source);
        assert!(!tokens.is_empty());
        let eofs = tokens.iter().filter(|t| t.token_type == TokenType::Eof).count();
        assert_eq!(eofs, 1, "{:?}", source);
        assert_eq!(tokens.last().unwrap().token_type, TokenType::Eof);
    }
}

#[test]
fn lines_never_decrease() {
    let source = "var a = \"x\ny\";\n/* c\n\n */ print a; // end\nfun f() { return 1.5; }";
    let (tokens, errors) = scan(source);
    assert!(errors.is_empty());
    for pair in tokens.windows(2) {
        assert!(pair[0].line <= pair[1].line);
    }
    assert_eq!(tokens.last().unwrap().line, 6);
}

#[test]
fn positions_are_those_of_the_token_end() {
    let (tokens, _) = scan("ab\ncd >= 12");
    assert_eq!(
        tokens,
        vec![
            Token::new(TokenType::Identifier, text("ab"), 1, 2),
            Token::new(TokenType::Identifier, text("cd"), 2, 2),
            Token::token(TokenType::GreaterEqual, 2, 5),
            Token::new(TokenType::Number, numeral("12"), 2, 8),
            Token::eof(2, 9),
        ]
    );
}

#[test]
fn column_restarts_after_a_newline_inside_a_token() {
    let (tokens, _) = scan("\"a\nbc\"+");
    assert_eq!(
        tokens,
        vec![
            Token::new(TokenType::String, text("a\nbc"), 2, 3),
            Token::token(TokenType::Plus, 2, 4),
            Token::eof(2, 5),
        ]
    );
}

#[test]
fn bang_equal_is_one_token() {
    let (tokens, errors) = scan("!=");
    assert_eq!(tokens, vec![Token::token(TokenType::BangEqual, 1, 2), Token::eof(1, 3)]);
    assert!(errors.is_empty());
    let (tokens, _) = scan("!");
    assert_eq!(tokens, vec![Token::token(TokenType::Bang, 1, 1), Token::eof(1, 2)]);
}

#[test]
fn operators_take_the_longest_match() {
    let (tokens, _) = scan("== = <= < >= > != !");
    assert_eq!(
        kinds(&tokens),
        vec![
            TokenType::EqualEqual,
            TokenType::Equal,
            TokenType::LessEqual,
            TokenType::Less,
            TokenType::GreaterEqual,
            TokenType::Greater,
            TokenType::BangEqual,
            TokenType::Bang,
            TokenType::Eof,
        ]
    );
    let (tokens, _) = scan("===");
    assert_eq!(kinds(&tokens), vec![TokenType::EqualEqual, TokenType::Equal, TokenType::Eof]);
}

#[test]
fn punctuation_is_one_character_wide() {
    let (tokens, _) = scan("(){},.-+;*/");
    assert_eq!(
        kinds(&tokens),
        vec![
            TokenType::LeftParen,
            TokenType::RightParen,
            TokenType::LeftBrace,
            TokenType::RightBrace,
            TokenType::Comma,
            TokenType::Dot,
            TokenType::Minus,
            TokenType::Plus,
            TokenType::Semicolon,
            TokenType::Star,
            TokenType::Slash,
            TokenType::Eof,
        ]
    );
    for (i, token) in tokens.iter().enumerate() {
        assert_eq!((token.line, token.character), (1, i + 1));
    }
}

#[test]
fn line_comment_is_stripped() {
    let (tokens, errors) = scan("// comment\n");
    assert_eq!(tokens, vec![Token::eof(2, 1)]);
    assert!(errors.is_empty());
    let (tokens, _) = scan("1 // one\n2");
    assert_eq!(kinds(&tokens), vec![TokenType::Number, TokenType::Number, TokenType::Eof]);
}

#[test]
fn block_comment_is_stripped() {
    let (tokens, errors) = scan("/* a\nb */");
    assert_eq!(tokens, vec![Token::eof(2, 5)]);
    assert!(errors.is_empty());
    let (tokens, _) = scan("/**/+/* * / */-");
    assert_eq!(kinds(&tokens), vec![TokenType::Plus, TokenType::Minus, TokenType::Eof]);
}

#[test]
fn open_block_comment_runs_to_the_end_without_an_error() {
    let (tokens, errors) = scan("+ /* never\nclosed + *");
    assert_eq!(tokens, vec![Token::token(TokenType::Plus, 1, 1), Token::eof(2, 11)]);
    assert!(errors.is_empty());
    let (tokens, errors) = scan("/*");
    assert_eq!(tokens, vec![Token::eof(1, 3)]);
    assert!(errors.is_empty());
}

#[test]
fn string_payload_is_the_text_between_the_quotes() {
    let (tokens, errors) = scan("\"Hello, world!\"");
    assert_eq!(
        tokens,
        vec![Token::new(TokenType::String, text("Hello, world!"), 1, 15), Token::eof(1, 16)]
    );
    assert!(errors.is_empty());
    let (tokens, _) = scan("\"\"");
    assert_eq!(tokens[0], Token::new(TokenType::String, text(""), 1, 2));
    let (tokens, _) = scan("\"a\\\"b");
    assert_eq!(tokens[0], Token::new(TokenType::String, text("a\\"), 1, 4));
    assert_eq!(tokens[1].token_type, TokenType::Identifier);
}

#[test]
fn text_beyond_ascii_is_read_by_characters() {
    let (tokens, errors) = scan("\"h\u{e9}llo\" x");
    assert_eq!(
        tokens,
        vec![
            Token::new(TokenType::String, text("h\u{e9}llo"), 1, 7),
            Token::new(TokenType::Identifier, text("x"), 1, 9),
            Token::eof(1, 10),
        ]
    );
    assert!(errors.is_empty());
    let (tokens, errors) = scan("\u{e9}");
    assert_eq!(tokens, vec![Token::eof(1, 2)]);
    assert_eq!(errors.len(), 1);
    assert_eq!(errors[0].message, "Unknown character '\u{e9}'");
}

#[test]
fn number_with_fraction() {
    let (tokens, errors) = scan("123.456");
    assert_eq!(
        tokens,
        vec![Token::new(TokenType::Number, numeral("123.456"), 1, 7), Token::eof(1, 8)]
    );
    assert!(errors.is_empty());
}

#[test]
fn trailing_dot_is_a_token_of_its_own() {
    let (tokens, _) = scan("123.");
    assert_eq!(
        tokens,
        vec![
            Token::new(TokenType::Number, numeral("123"), 1, 3),
            Token::token(TokenType::Dot, 1, 4),
            Token::eof(1, 5),
        ]
    );
    let (tokens, _) = scan("1.2.3");
    assert_eq!(
        tokens,
        vec![
            Token::new(TokenType::Number, numeral("1.2"), 1, 3),
            Token::token(TokenType::Dot, 1, 4),
            Token::new(TokenType::Number, numeral("3"), 1, 5),
            Token::eof(1, 6),
        ]
    );
}

#[test]
fn keyword_and_identifier() {
    let (tokens, _) = scan("and");
    assert_eq!(tokens, vec![Token::new(TokenType::And, text("and"), 1, 3), Token::eof(1, 4)]);
    let (tokens, _) = scan("android");
    assert_eq!(
        tokens,
        vec![Token::new(TokenType::Identifier, text("android"), 1, 7), Token::eof(1, 8)]
    );
    let (tokens, _) = scan("a_1 _");
    assert_eq!(tokens[0], Token::new(TokenType::Identifier, text("a_1"), 1, 3));
    assert_eq!(tokens[1].token_type, TokenType::Eof);
}

#[test]
fn keyword_table() {
    let table = [
        ("and", TokenType::And),
        ("class", TokenType::Class),
        ("else", TokenType::Else),
        ("false", TokenType::False),
        ("for", TokenType::For),
        ("fun", TokenType::Fun),
        ("if", TokenType::If),
        ("nil", TokenType::Nil),
        ("or", TokenType::Or),
        ("print", TokenType::Print),
        ("return", TokenType::Return),
        ("super", TokenType::Super),
        ("this", TokenType::This),
        ("true", TokenType::True),
        ("var", TokenType::Var),
        ("while", TokenType::While),
    ];
    for (word, kind) in table {
        assert_eq!(TokenType::keyword(word), Some(kind));
        let (tokens, _) = scan(word);
        assert_eq!(tokens[0].token_type, kind);
        assert_eq!(tokens[0].literal, text(word));
    }
    for word in ["", "a", "an", "android", "And", "AND", "fo", "fort", "tru", "thi", "eof", "x"] {
        assert_eq!(TokenType::keyword(word), None, "{:?}", word);
    }
}

#[test]
fn unterminated_string_gives_an_error_and_no_token() {
    let (tokens, errors) = scan("\"abc");
    assert_eq!(tokens, vec![Token::eof(1, 5)]);
    assert_eq!(
        errors,
        vec![ScannerError {
            location: String::new(),
            line: 1,
            character: 4,
            message: "Unterminated string.".to_string(),
        }]
    );
}

#[test]
fn unknown_character_gives_an_error_and_scanning_goes_on() {
    let (tokens, errors) = scan("@");
    assert_eq!(tokens, vec![Token::eof(1, 2)]);
    assert_eq!(errors.len(), 1);
    assert_eq!(errors[0].message, "Unknown character '@'");
    let (tokens, errors) = scan("+@+");
    assert_eq!(
        tokens,
        vec![
            Token::token(TokenType::Plus, 1, 1),
            Token::token(TokenType::Plus, 1, 3),
            Token::eof(1, 4),
        ]
    );
    assert_eq!(
        errors,
        vec![ScannerError {
            location: String::new(),
            line: 1,
            character: 2,
            message: "Unknown character '@'".to_string(),
        }]
    );
}

#[test]
fn errors_come_in_the_order_they_were_met() {
    let (tokens, errors) = scan("#\n$ \"open");
    assert_eq!(tokens, vec![Token::eof(2, 8)]);
    let messages: Vec<&str> = errors.iter().map(|e| e.message.as_str()).collect();
    assert_eq!(
        messages,
        vec!["Unknown character '#'", "Unknown character '$'", "Unterminated string."]
    );
    assert_eq!((errors[0].line, errors[0].character), (1, 1));
    assert_eq!((errors[1].line, errors[1].character), (2, 1));
    assert_eq!((errors[2].line, errors[2].character), (2, 7));
}

#[test]
fn pretty_renders_one_token_to_a_line() {
    let (tokens, _) = scan("var x1 = 10.5;");
    assert_eq!(
        pretty(&tokens),
        "Var(1,3)[var]\nIdentifier(1,6)[x1]\nEqual(1,8)\n\
         Number(1,13)[10.5]\nSemicolon(1,14)\nEof(1,15)\n"
    );
    assert_eq!(pretty(&Vec::new()), "");
}

#[test]
fn run_lox_scans_and_renders() {
    assert_eq!(
        rlox::run_lox("\"s\" != 1".to_string()),
        "String(1,3)[s]\nBangEqual(1,6)\nNumber(1,8)[1]\nEof(1,9)\n"
    );
    assert_eq!(rlox::run_lox(String::new()), "Eof(1,1)\n");
}

#[test]
fn token_rendering_writes_positions_in_decimal() {
    assert_eq!(Token::eof(120, 9).to_text(), "Eof(120,9)");
    assert_eq!(Token::token(TokenType::LeftBrace, 1000, 0).to_text(), "LeftBrace(1000,0)");
    assert_eq!(
        Token::new(TokenType::Number, numeral("42"), 7, 10).to_text(),
        "Number(7,10)[42]"
    );
}

#[test]
fn error_rendering() {
    let (_, errors) = scan("\n\"abc");
    assert_eq!(errors[0].to_text(), "[:2:4] Unterminated string.");
    let named = ScannerError {
        location: "main.lox".to_string(),
        line: 12,
        character: 345,
        message: "Unknown character '@'".to_string(),
    };
    assert_eq!(named.to_text(), "[main.lox:12:345] Unknown character '@'");
}

#[test]
fn malformed_number_error() {
    assert_eq!(
        malformed_number("1.2.3", 4, 9),
        ScannerError {
            location: String::new(),
            line: 4,
            character: 9,
            message: "Failed to parse number 1.2.3.".to_string(),
        }
    );
}

#[test]
fn every_numeral_found_has_a_value() {
    let (tokens, errors) = scan("0 007 1.5 10.25.3 99999999999999999999999999.0000001 4.x");
    assert!(errors.is_empty());
    let mut values = Vec::new();
    for token in &tokens {
        if let Some(LiteralValue::Number(n)) = &token.literal {
            values.push(n.parse::<f64>().unwrap());
        }
    }
    assert_eq!(values, vec![0.0, 7.0, 1.5, 10.25, 3.0, 1e26, 4.0]);
}

#[test]
fn try_scan_agrees_with_scan() {
    for source in ["", "var x = \"s\";", "@ \"open", "/* c */ 1.5"] {
        assert_eq!(try_scan(source), Some(scan(source)));
    }
}

#[test]
fn payload_rendering() {
    assert_eq!(LiteralValue::Number("123.456".to_string()).to_text(), "123.456");
    assert_eq!(LiteralValue::String("Hello, world!".to_string()).to_text(), "Hello, world!");
}

#[test]
fn output_is_bounded_by_the_text() {
    for source in ["", "+-*/", "@#$", "a b c", "\"x\" \"y", "1.2.3.4", "// c\n/* d */ e"] {
        let (tokens, errors) = scan(source);
        assert!(tokens.len() - 1 + errors.len() <= source.chars().count(), "{:?}", source);
    }
}
