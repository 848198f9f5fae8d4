use vstd::prelude::*;
use vstd::string::StringExecFns;

verus! {

/// The closed set of token categories the scanner can produce.
#[derive(Clone, Copy, PartialEq, Eq, Structural, Debug)]
pub enum TokenType {
    Illegal,
    Eof,
    Identifier,
    Integer,
    Assign,
    Plus,
    Minus,
    Bang,
    Asterisk,
    Slash,
    LessThan,
    GreaterThan,
    Equal,
    NotEqual,
    Comma,
    Semicolon,
    LParen,
    RParen,
    LBrace,
    RBrace,
    Function,
    Let,
    True,
    False,
    If,
    Else,
    Return,
}

/// Whether `s` spells one of the reserved keywords.
pub open spec fn spec_is_keyword(s: Seq<char>) -> bool {
    ||| s == "fn"@
    ||| s == "let"@
    ||| s == "true"@
    ||| s == "false"@
    ||| s == "if"@
    ||| s == "else"@
    ||| s == "return"@
}

/// The category an alphabetic run resolves to: the matching keyword category
/// where it spells a reserved word, `Identifier` otherwise.
pub open spec fn spec_lookup(s: Seq<char>) -> TokenType {
    if s == "fn"@ {
        TokenType::Function
    } else if s == "let"@ {
        TokenType::Let
    } else if s == "true"@ {
        TokenType::True
    } else if s == "false"@ {
        TokenType::False
    } else if s == "if"@ {
        TokenType::If
    } else if s == "else"@ {
        TokenType::Else
    } else if s == "return"@ {
        TokenType::Return
    } else {
        TokenType::Identifier
    }
}

/// Resolves an identifier spelling against the keyword table.
pub fn lookup(ident: &str) -> (name: TokenType)
    ensures
        name == spec_lookup(ident@),
{
    let s: String = ident.to_owned();
    if s == String::from_str("fn") {
        TokenType::Function
    } else if s == String::from_str("let") {
        TokenType::Let
    } else if s == String::from_str("true") {
        TokenType::True
    } else if s == String::from_str("false") {
        TokenType::False
    } else if s == String::from_str("if") {
        TokenType::If
    } else if s == String::from_str("else") {
        TokenType::Else
    } else if s == String::from_str("return") {
        TokenType::Return
    } else {
        TokenType::Identifier
    }
}

/// A classified unit of source text: a category together with the literal
/// text that produced it.
#[derive(Debug)]
pub struct Token {
    name: TokenType,
    literal: String,
}

/// The mathematical content of a `Token`: its category and its literal text.
pub ghost struct TokenView {
    pub kind: TokenType,
    pub text: Seq<char>,
}

impl View for Token {
    type V = TokenView;

    closed spec fn view(&self) -> TokenView {
        TokenView { kind: self.name, text: self.literal@ }
    }
}

impl Token {
    pub fn new(name: TokenType, literal: String) -> (t: Token)
        ensures
            t@ == (TokenView { kind: name, text: literal@ }),
    {
        Token { name, literal }
    }

    pub fn name(&self) -> (name: TokenType)
        ensures
            name == self@.kind,
    {
        self.name
    }

    pub fn literal(&self) -> (literal: String)
        ensures
            literal@ == self@.text,
    {
        self.literal.clone()
    }

    pub fn is_eof(&self) -> (b: bool)
        ensures
            b == (self@.kind == TokenType::Eof),
    {
        self.name == TokenType::Eof
    }

    pub fn is_illegal(&self) -> (b: bool)
        ensures
            b == (self@.kind == TokenType::Illegal),
    {
        self.name == TokenType::Illegal
    }
}

} // verus!
