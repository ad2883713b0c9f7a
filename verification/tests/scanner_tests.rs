use lox_scanner::scanner::Scanner;
use lox_scanner::token::Object;
use lox_scanner::token::Token;
use lox_scanner::token::TokenType;

fn scan(source: &str) -> (Vec<Token>, Vec<lox_scanner::token::LoxError>) {
    let mut sc = Scanner::new(source.to_string());
    let tokens = sc.scan_tokens().expect("scan never fails").clone();
    (tokens, sc.errors.clone())
}

fn kinds(tokens: &[Token]) -> Vec<TokenType> {
    tokens.iter().map(|t| t.ttype).collect()
}

#[test]
fn punctuation_sequence() {
    let (tokens, errors) = scan("(+)");
    assert_eq!(
        kinds(&tokens),
        vec![TokenType::LeftParen, TokenType::Plus, TokenType::RightParen, TokenType::Eof]
    );
    assert!(errors.is_empty());
}

#[test]
fn all_single_char_punctuation() {
    let (tokens, _) = scan("(){},.+;-");
    assert_eq!(
        kinds(&tokens),
        vec![
            TokenType::LeftParen,
            TokenType::RightParen,
            TokenType::LeftBrace,
            TokenType::RightBrace,
            TokenType::Comma,
            TokenType::Dot,
            TokenType::Plus,
            TokenType::Semicolon,
            TokenType::Minus,
            TokenType::Eof
        ]
    );
}

#[test]
fn bang_equal_and_bang() {
    let (tokens, _) = scan("!=");
    assert_eq!(kinds(&tokens), vec![TokenType::BangEqual, TokenType::Eof]);
    let (tokens, _) = scan("!");
    assert_eq!(kinds(&tokens), vec![TokenType::Bang, TokenType::Eof]);
}

#[test]
fn two_char_operators() {
    let (tokens, _) = scan("== = <= < >= >");
    assert_eq!(
        kinds(&tokens),
        vec![
            TokenType::Equals,
            TokenType::Assign,
            TokenType::LessEqual,
            TokenType::Less,
            TokenType::GreaterEqual,
            TokenType::Greater,
            TokenType::Eof
        ]
    );
}

#[test]
fn string_literal_value() {
    let (tokens, errors) = scan("\"hello\"");
    assert_eq!(tokens.len(), 2);
    assert_eq!(tokens[0].ttype, TokenType::String);
    assert_eq!(tokens[0].lexeme, "\"hello\"");
    assert_eq!(tokens[0].literal, Some(Object::Str("hello".to_string())));
    assert_eq!(tokens[1].ttype, TokenType::Eof);
    assert!(errors.is_empty());
}

#[test]
fn number_with_fraction() {
    let (tokens, errors) = scan("123.45");
    assert_eq!(tokens.len(), 2);
    assert_eq!(tokens[0].ttype, TokenType::Number);
    assert_eq!(tokens[0].lexeme, "123.45");
    assert_eq!(tokens[0].literal, Some(Object::Num("123.45".to_string())));
    let value: f64 = match &tokens[0].literal {
        Some(Object::Num(text)) => text.parse().expect("numeric text parses"),
        _ => panic!("expected a number literal"),
    };
    assert_eq!(value, 123.45);
    assert!(errors.is_empty());
}

#[test]
fn number_without_fraction() {
    let (tokens, _) = scan("42");
    assert_eq!(tokens[0].ttype, TokenType::Number);
    assert_eq!(tokens[0].lexeme, "42");
    assert_eq!(tokens[0].literal, Some(Object::Num("42".to_string())));
}

#[test]
fn number_dot_without_digit_after() {
    let (tokens, _) = scan("123.");
    assert_eq!(kinds(&tokens), vec![TokenType::Number, TokenType::Dot, TokenType::Eof]);
    assert_eq!(tokens[0].lexeme, "123");
}

#[test]
fn line_comment_then_keyword() {
    let (tokens, errors) = scan("// comment\nvar");
    assert_eq!(kinds(&tokens), vec![TokenType::Var, TokenType::Eof]);
    assert_eq!(tokens[0].line, 2);
    assert!(errors.is_empty());
}

#[test]
fn identifier_not_in_keyword_table() {
    let (tokens, _) = scan("foo_bar1");
    assert_eq!(kinds(&tokens), vec![TokenType::Identifier, TokenType::Eof]);
    assert_eq!(tokens[0].lexeme, "foo_bar1");
}

#[test]
fn unterminated_string_reports_once() {
    let (tokens, errors) = scan("\"");
    assert_eq!(kinds(&tokens), vec![TokenType::Eof]);
    assert_eq!(errors.len(), 1);
    assert_eq!(errors[0].message, "Unterminated string");
    assert_eq!(errors[0].line, 1);
}

#[test]
fn unterminated_string_line_is_end_of_buffer() {
    let (tokens, errors) = scan("\"abc\ndef");
    assert_eq!(kinds(&tokens), vec![TokenType::Eof]);
    assert_eq!(errors.len(), 1);
    assert_eq!(errors[0].message, "Unterminated string");
    assert_eq!(errors[0].line, 2);
}

#[test]
fn multi_line_string_keeps_start_line() {
    let (tokens, errors) = scan("\"a\nb\" +");
    assert_eq!(kinds(&tokens), vec![TokenType::String, TokenType::Plus, TokenType::Eof]);
    assert_eq!(tokens[0].line, 1);
    assert_eq!(tokens[0].literal, Some(Object::Str("a\nb".to_string())));
    // The plus and the end-of-input marker stand on line 2.
    assert_eq!(tokens[1].line, 2);
    assert_eq!(tokens[2].line, 2);
    assert!(errors.is_empty());
}

#[test]
fn all_keywords() {
    let source = "and class else true false for fun if nil or print return super this var while";
    let (tokens, _) = scan(source);
    assert_eq!(
        kinds(&tokens),
        vec![
            TokenType::And,
            TokenType::Class,
            TokenType::Else,
            TokenType::True,
            TokenType::False,
            TokenType::For,
            TokenType::Fun,
            TokenType::If,
            TokenType::Nil,
            TokenType::Or,
            TokenType::Print,
            TokenType::Return,
            TokenType::Super,
            TokenType::This,
            TokenType::Var,
            TokenType::While,
            TokenType::Eof
        ]
    );
}

#[test]
fn keyword_prefix_is_identifier() {
    let (tokens, _) = scan("variable orchid Fun");
    assert_eq!(
        kinds(&tokens),
        vec![TokenType::Identifier, TokenType::Identifier, TokenType::Identifier, TokenType::Eof]
    );
}

#[test]
fn slash_is_division() {
    let (tokens, _) = scan("1/2");
    assert_eq!(kinds(&tokens), vec![TokenType::Number, TokenType::Slash, TokenType::Number, TokenType::Eof]);
}

#[test]
fn block_comment_produces_no_token() {
    let (tokens, errors) = scan("a /* skip this */ b");
    assert_eq!(kinds(&tokens), vec![TokenType::Identifier, TokenType::Identifier, TokenType::Eof]);
    assert_eq!(tokens[0].lexeme, "a");
    assert_eq!(tokens[1].lexeme, "b");
    assert!(errors.is_empty());
}

#[test]
fn block_comment_counts_lines() {
    let (tokens, _) = scan("/* a\nb\nc */ var");
    assert_eq!(kinds(&tokens), vec![TokenType::Var, TokenType::Eof]);
    assert_eq!(tokens[0].line, 3);
}

#[test]
fn block_comment_is_not_nesting_aware() {
    // The first `*/` closes the comment; the rest is scanned normally.
    let (tokens, _) = scan("/* /* x */ y");
    assert_eq!(kinds(&tokens), vec![TokenType::Identifier, TokenType::Eof]);
    assert_eq!(tokens[0].lexeme, "y");
}

#[test]
fn unterminated_block_comment_absorbs_rest() {
    let (tokens, errors) = scan("/* never closed\nvar x");
    assert_eq!(kinds(&tokens), vec![TokenType::Eof]);
    assert!(errors.is_empty());
}

#[test]
fn whitespace_produces_no_token() {
    let (tokens, _) = scan(" \t\r ");
    assert_eq!(kinds(&tokens), vec![TokenType::Eof]);
}

#[test]
fn newlines_advance_line_counter() {
    let (tokens, _) = scan("a\nb\n\nc");
    assert_eq!(tokens[0].line, 1);
    assert_eq!(tokens[1].line, 2);
    assert_eq!(tokens[2].line, 4);
    assert_eq!(tokens[3].ttype, TokenType::Eof);
    assert_eq!(tokens[3].line, 4);
}

#[test]
fn unrecognized_characters_are_skipped_silently() {
    let (tokens, errors) = scan("@ # $ ^");
    assert_eq!(kinds(&tokens), vec![TokenType::Eof]);
    assert!(errors.is_empty());
}

#[test]
fn empty_source_yields_only_eof() {
    let (tokens, errors) = scan("");
    assert_eq!(tokens.len(), 1);
    assert_eq!(tokens[0].ttype, TokenType::Eof);
    assert_eq!(tokens[0].lexeme, "");
    assert_eq!(tokens[0].line, 1);
    assert!(errors.is_empty());
}

#[test]
fn scanning_twice_yields_identical_sequences() {
    let source = "var x = 1.5; // set\nprint \"x\"; /* done */ !=";
    let (first_tokens, first_errors) = scan(source);
    let (second_tokens, second_errors) = scan(source);
    assert_eq!(first_tokens, second_tokens);
    assert_eq!(first_errors, second_errors);
}

#[test]
fn last_token_is_always_eof() {
    for source in ["", "var", "\"", "1 + 2", "@", "/* x", "\n\n"] {
        let (tokens, _) = scan(source);
        assert!(!tokens.is_empty());
        assert_eq!(tokens.last().unwrap().ttype, TokenType::Eof);
        for t in &tokens[..tokens.len() - 1] {
            assert_ne!(t.ttype, TokenType::Eof);
        }
    }
}

#[test]
fn lexemes_are_substrings_of_source() {
    let source = "var answer = 41.9 + \"x\"; != <= /* c */ foo";
    let (tokens, _) = scan(source);
    for t in &tokens[..tokens.len() - 1] {
        assert!(!t.lexeme.is_empty());
        assert!(source.contains(t.lexeme.as_str()));
    }
}

#[test]
fn line_numbers_are_non_decreasing() {
    let source = "a\nb\n\"s\n t\" c /* x\ny */ d\ne";
    let (tokens, _) = scan(source);
    for pair in tokens.windows(2) {
        assert!(pair[0].line <= pair[1].line);
    }
}

#[test]
fn token_display_text() {
    let (tokens, _) = scan("123.45");
    assert_eq!(tokens[0].to_display_string(), "Number 123.45 123.45");
    let (tokens, _) = scan("\"hi\"");
    assert_eq!(tokens[0].to_display_string(), "String \"hi\" \"hi\"");
    let (tokens, _) = scan("var");
    assert_eq!(tokens[0].to_display_string(), "Var var None");
}

#[test]
fn object_display_text() {
    assert_eq!(Object::Nil.to_display_string(), "nil");
    assert_eq!(Object::True.to_display_string(), "true");
    assert_eq!(Object::False.to_display_string(), "false");
    assert_eq!(Object::Num("7".to_string()).to_display_string(), "7");
    assert_eq!(Object::Str("s".to_string()).to_display_string(), "\"s\"");
}

#[test]
fn token_constructors() {
    let t = Token::new(TokenType::Plus, "+".to_string(), None, 3);
    assert_eq!(t.ttype, TokenType::Plus);
    assert_eq!(t.lexeme, "+");
    assert_eq!(t.literal, None);
    assert_eq!(t.line, 3);
    let e = Token::eof(9);
    assert_eq!(e.ttype, TokenType::Eof);
    assert_eq!(e.lexeme, "");
    assert_eq!(e.literal, None);
    assert_eq!(e.line, 9);
}

#[test]
fn numeric_lexemes_are_digit_only() {
    // Letters never join a numeric lexeme: they start a fresh identifier.
    let (tokens, _) = scan("123abc");
    assert_eq!(kinds(&tokens), vec![TokenType::Number, TokenType::Identifier, TokenType::Eof]);
    assert_eq!(tokens[0].lexeme, "123");
    assert_eq!(tokens[1].lexeme, "abc");
}

#[test]
fn second_dot_ends_the_number() {
    let (tokens, _) = scan("123.45.6");
    assert_eq!(
        kinds(&tokens),
        vec![TokenType::Number, TokenType::Dot, TokenType::Number, TokenType::Eof]
    );
    assert_eq!(tokens[0].lexeme, "123.45");
    assert_eq!(tokens[2].lexeme, "6");
}

#[test]
fn identifier_may_start_with_underscore() {
    let (tokens, _) = scan("_x");
    assert_eq!(kinds(&tokens), vec![TokenType::Identifier, TokenType::Eof]);
    assert_eq!(tokens[0].lexeme, "_x");
}

#[test]
fn carriage_return_newline_counts_one_line() {
    let (tokens, _) = scan("a\r\nb");
    assert_eq!(tokens[0].line, 1);
    assert_eq!(tokens[1].line, 2);
}

#[test]
fn comment_markers_inside_string_are_text() {
    let (tokens, _) = scan("\"// not a comment\"");
    assert_eq!(kinds(&tokens), vec![TokenType::String, TokenType::Eof]);
    assert_eq!(tokens[0].literal, Some(Object::Str("// not a comment".to_string())));
}

#[test]
fn errors_do_not_stop_the_scan() {
    // An unterminated string is reported, and scanning had already
    // produced the earlier tokens.
    let (tokens, errors) = scan("+ \"");
    assert_eq!(kinds(&tokens), vec![TokenType::Plus, TokenType::Eof]);
    assert_eq!(errors.len(), 1);
    assert_eq!(errors[0].message, "Unterminated string");
}
