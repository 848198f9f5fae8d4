use monkey_lexer::lexer::Lexer;
use monkey_lexer::token::{Token, TokenType};

fn scan(source: &str) -> Vec<Token> {
    let mut lex = Lexer::new(source.chars().collect());
    lex.run()
}

#[test]
fn test_next_token() {
    let input = r"let five = 5;
let ten = 10;
let add = fn(x, y) {
  x + y;
};

let result = add(five, ten);
!-/*5;
5 < 10 > 5;

if (5 < 10) {
	return true;
} else {
	return false;
}

10 == 10;
10 != 9;
";

    let tests: Vec<(TokenType, &str)> = vec![
        (TokenType::Let, "let"),
        (TokenType::Identifier, "five"),
        (TokenType::Assign, "="),
        (TokenType::Integer, "5"),
        (TokenType::Semicolon, ";"),
        (TokenType::Let, "let"),
        (TokenType::Identifier, "ten"),
        (TokenType::Assign, "="),
        (TokenType::Integer, "10"),
        (TokenType::Semicolon, ";"),
        (TokenType::Let, "let"),
        (TokenType::Identifier, "add"),
        (TokenType::Assign, "="),
        (TokenType::Function, "fn"),
        (TokenType::LParen, "("),
        (TokenType::Identifier, "x"),
        (TokenType::Comma, ","),
        (TokenType::Identifier, "y"),
        (TokenType::RParen, ")"),
        (TokenType::LBrace, "{"),
        (TokenType::Identifier, "x"),
        (TokenType::Plus, "+"),
        (TokenType::Identifier, "y"),
        (TokenType::Semicolon, ";"),
        (TokenType::RBrace, "}"),
        (TokenType::Semicolon, ";"),
        (TokenType::Let, "let"),
        (TokenType::Identifier, "result"),
        (TokenType::Assign, "="),
        (TokenType::Identifier, "add"),
        (TokenType::LParen, "("),
        (TokenType::Identifier, "five"),
        (TokenType::Comma, ","),
        (TokenType::Identifier, "ten"),
        (TokenType::RParen, ")"),
        (TokenType::Semicolon, ";"),
        (TokenType::Bang, "!"),
        (TokenType::Minus, "-"),
        (TokenType::Slash, "/"),
        (TokenType::Asterisk, "*"),
        (TokenType::Integer, "5"),
        (TokenType::Semicolon, ";"),
        (TokenType::Integer, "5"),
        (TokenType::LessThan, "<"),
        (TokenType::Integer, "10"),
        (TokenType::GreaterThan, ">"),
        (TokenType::Integer, "5"),
        (TokenType::Semicolon, ";"),
        (TokenType::If, "if"),
        (TokenType::LParen, "("),
        (TokenType::Integer, "5"),
        (TokenType::LessThan, "<"),
        (TokenType::Integer, "10"),
        (TokenType::RParen, ")"),
        (TokenType::LBrace, "{"),
        (TokenType::Return, "return"),
        (TokenType::True, "true"),
        (TokenType::Semicolon, ";"),
        (TokenType::RBrace, "}"),
        (TokenType::Else, "else"),
        (TokenType::LBrace, "{"),
        (TokenType::Return, "return"),
        (TokenType::False, "false"),
        (TokenType::Semicolon, ";"),
        (TokenType::RBrace, "}"),
        (TokenType::Integer, "10"),
        (TokenType::Equal, "=="),
        (TokenType::Integer, "10"),
        (TokenType::Semicolon, ";"),
        (TokenType::Integer, "10"),
        (TokenType::NotEqual, "!="),
        (TokenType::Integer, "9"),
        (TokenType::Semicolon, ";"),
        (TokenType::Eof, ""),
    ];

    let mut lex = Lexer::new(input.chars().collect());
    for t in &tests {
        let retval = lex.next_token();
        assert_eq!(retval.name(), t.0);
        assert_eq!(retval.literal(), t.1);
    }
}

#[test]
fn totality_on_empty_input() {
    let tokens = scan("");
    assert_eq!(tokens.len(), 1);
    assert!(tokens[0].is_eof());
    assert_eq!(tokens[0].literal(), "");
}

#[test]
fn totality_one_eof_within_bound() {
    let source = "let x = 1; @@ fn(|)";
    let tokens = scan(source);
    assert!(tokens.len() <= source.chars().count() + 1);
    assert!(tokens.last().unwrap().is_eof());
    for t in &tokens[..tokens.len() - 1] {
        assert!(!t.is_eof());
    }
}

#[test]
fn punctuation_round_trip() {
    let cases: Vec<(&str, TokenType)> = vec![
        ("+", TokenType::Plus),
        ("-", TokenType::Minus),
        ("/", TokenType::Slash),
        ("*", TokenType::Asterisk),
        ("<", TokenType::LessThan),
        (">", TokenType::GreaterThan),
        (";", TokenType::Semicolon),
        (",", TokenType::Comma),
        ("(", TokenType::LParen),
        (")", TokenType::RParen),
        ("{", TokenType::LBrace),
        ("}", TokenType::RBrace),
    ];
    for (source, name) in cases {
        let tokens = scan(source);
        assert_eq!(tokens.len(), 2);
        assert_eq!(tokens[0].name(), name);
        assert_eq!(tokens[0].literal(), source);
        assert!(tokens[1].is_eof());
    }
}

#[test]
fn two_character_precedence() {
    let tokens = scan("==");
    assert_eq!(tokens.len(), 2);
    assert_eq!(tokens[0].name(), TokenType::Equal);
    assert_eq!(tokens[0].literal(), "==");

    let tokens = scan("=");
    assert_eq!(tokens.len(), 2);
    assert_eq!(tokens[0].name(), TokenType::Assign);
    assert_eq!(tokens[0].literal(), "=");

    let tokens = scan("!=");
    assert_eq!(tokens.len(), 2);
    assert_eq!(tokens[0].name(), TokenType::NotEqual);
    assert_eq!(tokens[0].literal(), "!=");

    let tokens = scan("!");
    assert_eq!(tokens.len(), 2);
    assert_eq!(tokens[0].name(), TokenType::Bang);
    assert_eq!(tokens[0].literal(), "!");
}

#[test]
fn keyword_resolution() {
    let cases: Vec<(&str, TokenType)> = vec![
        ("fn", TokenType::Function),
        ("let", TokenType::Let),
        ("true", TokenType::True),
        ("false", TokenType::False),
        ("if", TokenType::If),
        ("else", TokenType::Else),
        ("return", TokenType::Return),
    ];
    for (source, name) in cases {
        let tokens = scan(source);
        assert_eq!(tokens.len(), 2);
        assert_eq!(tokens[0].name(), name);
        assert_eq!(tokens[0].literal(), source);
        assert!(tokens[1].is_eof());
    }

    let tokens = scan("foobar");
    assert_eq!(tokens.len(), 2);
    assert_eq!(tokens[0].name(), TokenType::Identifier);
    assert_eq!(tokens[0].literal(), "foobar");
}

#[test]
fn digit_runs_stay_whole() {
    let tokens = scan("12345");
    assert_eq!(tokens.len(), 2);
    assert_eq!(tokens[0].name(), TokenType::Integer);
    assert_eq!(tokens[0].literal(), "12345");
    assert!(tokens[1].is_eof());
}

#[test]
fn whitespace_is_transparent() {
    let padded = scan("  \t\nlet");
    let bare = scan("let");
    assert_eq!(padded.len(), bare.len());
    for (a, b) in padded.iter().zip(bare.iter()) {
        assert_eq!(a.name(), b.name());
        assert_eq!(a.literal(), b.literal());
    }
    assert_eq!(padded.len(), 2);
    assert_eq!(padded[0].name(), TokenType::Let);
    assert_eq!(padded[0].literal(), "let");
}

#[test]
fn end_to_end_let_statement() {
    let tokens = scan("let five = 5;");
    let expected: Vec<(TokenType, &str)> = vec![
        (TokenType::Let, "let"),
        (TokenType::Identifier, "five"),
        (TokenType::Assign, "="),
        (TokenType::Integer, "5"),
        (TokenType::Semicolon, ";"),
        (TokenType::Eof, ""),
    ];
    assert_eq!(tokens.len(), expected.len());
    for (t, e) in tokens.iter().zip(expected.iter()) {
        assert_eq!(t.name(), e.0);
        assert_eq!(t.literal(), e.1);
    }
}

#[test]
fn illegal_character() {
    let tokens = scan("@");
    assert_eq!(tokens.len(), 2);
    assert_eq!(tokens[0].name(), TokenType::Illegal);
    assert!(tokens[0].is_illegal());
    assert_eq!(tokens[0].literal(), "@");
    assert!(tokens[1].is_eof());
}

#[test]
fn unicode_identifiers_are_alphabetic_runs() {
    let tokens = scan("caf\u{e9}");
    assert_eq!(tokens.len(), 2);
    assert_eq!(tokens[0].name(), TokenType::Identifier);
    assert_eq!(tokens[0].literal(), "caf\u{e9}");
}

#[test]
fn pull_interface_matches_batch() {
    let source = "x == 41;";
    let batch = scan(source);
    let mut lex = Lexer::new(source.chars().collect());
    let mut pulled: Vec<Token> = Vec::new();
    loop {
        let t = lex.next_token();
        let stop = t.is_eof();
        pulled.push(t);
        if stop {
            break;
        }
    }
    assert_eq!(batch.len(), pulled.len());
    for (a, b) in batch.iter().zip(pulled.iter()) {
        assert_eq!(a.name(), b.name());
        assert_eq!(a.literal(), b.literal());
    }
}
