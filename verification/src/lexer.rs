use vstd::prelude::*;
use crate::token::{Token, TokenType, TokenView, spec_lookup, lookup};
use crate::push_char;

verus! {

// ---------------------------------------------------------------------------
// Character classes
// ---------------------------------------------------------------------------

/// The whitespace characters the scanner skips without emitting a token.
pub open spec fn is_whitespace_char(c: char) -> bool {
    c == ' ' || c == '\t' || c == '\n' || c == '\r'
}

/// The decimal digits.
pub open spec fn is_digit_char(c: char) -> bool {
    '0' <= c && c <= '9'
}

/// The characters that open an operator or punctuation token.
pub open spec fn is_operator_char(c: char) -> bool {
    ||| c == '='
    ||| c == '!'
    ||| c == '+'
    ||| c == '-'
    ||| c == '/'
    ||| c == '*'
    ||| c == '<'
    ||| c == '>'
    ||| c == ';'
    ||| c == ','
    ||| c == '('
    ||| c == ')'
    ||| c == '{'
    ||| c == '}'
}

/// What `char::is_alphabetic` returns for `c`: whether `c` has the Unicode
/// "Alphabetic" property, a fixed classification of the character alone.
pub uninterp spec fn unicode_alphabetic(c: char) -> bool;

/// The characters the scanner gathers into identifier and keyword runs.
/// Whitespace, digits and the operator characters are never alphabetic,
/// so the conjunction only makes explicit what already holds of the
/// Unicode classification.
pub open spec fn is_alphabetic_char(c: char) -> bool {
    &&& unicode_alphabetic(c)
    &&& !is_whitespace_char(c)
    &&& !is_digit_char(c)
    &&& !is_operator_char(c)
}

/// Relies on char::is_alphabetic: true exactly for characters with the
/// Unicode "Alphabetic" property; ASCII whitespace, digits and punctuation
/// do not have that property.
pub assume_specification[ char::is_alphabetic ](c: char) -> (b: bool)
    ensures
        b == (unicode_alphabetic(c) && !is_whitespace_char(c) && !is_digit_char(c)
            && !is_operator_char(c)),
        b == is_alphabetic_char(c),
;

// ---------------------------------------------------------------------------
// Maximal runs
// ---------------------------------------------------------------------------

/// The index just past the run of whitespace that starts at `i`.
pub open spec fn ws_end(input: Seq<char>, i: int) -> int
    decreases input.len() - i,
{
    if i < input.len() && is_whitespace_char(input[i]) {
        ws_end(input, i + 1)
    } else {
        i
    }
}

/// The index just past the run of alphabetic characters that starts at `i`.
pub open spec fn alpha_end(input: Seq<char>, i: int) -> int
    decreases input.len() - i,
{
    if i < input.len() && is_alphabetic_char(input[i]) {
        alpha_end(input, i + 1)
    } else {
        i
    }
}

/// The index just past the run of decimal digits that starts at `i`.
pub open spec fn digit_end(input: Seq<char>, i: int) -> int
    decreases input.len() - i,
{
    if i < input.len() && is_digit_char(input[i]) {
        digit_end(input, i + 1)
    } else {
        i
    }
}

pub proof fn lemma_ws_end(input: Seq<char>, i: int)
    requires
        0 <= i <= input.len(),
    ensures
        i <= ws_end(input, i) <= input.len(),
        ws_end(input, i) < input.len() ==> !is_whitespace_char(input[ws_end(input, i)]),
        forall|j: int| i <= j < ws_end(input, i) ==> is_whitespace_char(#[trigger] input[j]),
    decreases input.len() - i,
{
    if i < input.len() && is_whitespace_char(input[i]) {
        lemma_ws_end(input, i + 1);
    }
}

pub proof fn lemma_alpha_end(input: Seq<char>, i: int)
    requires
        0 <= i <= input.len(),
    ensures
        i <= alpha_end(input, i) <= input.len(),
        alpha_end(input, i) < input.len() ==> !is_alphabetic_char(input[alpha_end(input, i)]),
        forall|j: int| i <= j < alpha_end(input, i) ==> is_alphabetic_char(#[trigger] input[j]),
    decreases input.len() - i,
{
    if i < input.len() && is_alphabetic_char(input[i]) {
        lemma_alpha_end(input, i + 1);
    }
}

pub proof fn lemma_digit_end(input: Seq<char>, i: int)
    requires
        0 <= i <= input.len(),
    ensures
        i <= digit_end(input, i) <= input.len(),
        digit_end(input, i) < input.len() ==> !is_digit_char(input[digit_end(input, i)]),
        forall|j: int| i <= j < digit_end(input, i) ==> is_digit_char(#[trigger] input[j]),
    decreases input.len() - i,
{
    if i < input.len() && is_digit_char(input[i]) {
        lemma_digit_end(input, i + 1);
    }
}

// ---------------------------------------------------------------------------
// What one scanning step finds
// ---------------------------------------------------------------------------

/// The token the scanner produces when its cursor stands at `i` with the
/// whitespace already skipped: end-of-input past the last character,
/// a two-character operator where `=` or `!` is followed by `=`, a fixed
/// single-character token for the other operator characters, the maximal
/// alphabetic run resolved against the keyword table, the maximal digit run
/// as an integer literal, and an illegal token for anything else.
pub open spec fn token_view_at(input: Seq<char>, i: int) -> TokenView {
    if !(0 <= i < input.len()) {
        TokenView { kind: TokenType::Eof, text: Seq::empty() }
    } else {
        let c = input[i];
        if c == '=' {
            if i + 1 < input.len() && input[i + 1] == '=' {
                TokenView { kind: TokenType::Equal, text: "=="@ }
            } else {
                TokenView { kind: TokenType::Assign, text: "="@ }
            }
        } else if c == '!' {
            if i + 1 < input.len() && input[i + 1] == '=' {
                TokenView { kind: TokenType::NotEqual, text: "!="@ }
            } else {
                TokenView { kind: TokenType::Bang, text: "!"@ }
            }
        } else if c == '+' {
            TokenView { kind: TokenType::Plus, text: "+"@ }
        } else if c == '-' {
            TokenView { kind: TokenType::Minus, text: "-"@ }
        } else if c == '/' {
            TokenView { kind: TokenType::Slash, text: "/"@ }
        } else if c == '*' {
            TokenView { kind: TokenType::Asterisk, text: "*"@ }
        } else if c == '<' {
            TokenView { kind: TokenType::LessThan, text: "<"@ }
        } else if c == '>' {
            TokenView { kind: TokenType::GreaterThan, text: ">"@ }
        } else if c == ';' {
            TokenView { kind: TokenType::Semicolon, text: ";"@ }
        } else if c == ',' {
            TokenView { kind: TokenType::Comma, text: ","@ }
        } else if c == '{' {
            TokenView { kind: TokenType::LBrace, text: "{"@ }
        } else if c == '}' {
            TokenView { kind: TokenType::RBrace, text: "}"@ }
        } else if c == '(' {
            TokenView { kind: TokenType::LParen, text: "("@ }
        } else if c == ')' {
            TokenView { kind: TokenType::RParen, text: ")"@ }
        } else if is_alphabetic_char(c) {
            let run = input.subrange(i, alpha_end(input, i));
            TokenView { kind: spec_lookup(run), text: run }
        } else if is_digit_char(c) {
            TokenView { kind: TokenType::Integer, text: input.subrange(i, digit_end(input, i)) }
        } else {
            TokenView { kind: TokenType::Illegal, text: seq![c] }
        }
    }
}

/// Where the cursor stands after producing the token found at `i`:
/// on the first character the token did not consume.
pub open spec fn next_pos_at(input: Seq<char>, i: int) -> int {
    if !(0 <= i < input.len()) {
        input.len() as int
    } else {
        let c = input[i];
        if c == '=' || c == '!' {
            if i + 1 < input.len() && input[i + 1] == '=' {
                i + 2
            } else {
                i + 1
            }
        } else if is_operator_char(c) {
            i + 1
        } else if is_alphabetic_char(c) {
            alpha_end(input, i)
        } else if is_digit_char(c) {
            digit_end(input, i)
        } else {
            i + 1
        }
    }
}

pub proof fn lemma_next_pos_at(input: Seq<char>, i: int)
    requires
        0 <= i <= input.len(),
    ensures
        i < input.len() ==> i < next_pos_at(input, i) <= input.len(),
        i == input.len() ==> next_pos_at(input, i) == input.len(),
{
    if i < input.len() {
        let c = input[i];
        if is_alphabetic_char(c) {
            lemma_alpha_end(input, i + 1);
        } else if is_digit_char(c) {
            lemma_digit_end(input, i + 1);
        }
    }
}

// ---------------------------------------------------------------------------
// The scanner
// ---------------------------------------------------------------------------

/// The scanner: it owns the input characters and a cursor, and hands out one
/// token per `next_token` call until it reaches the end of the input.
pub struct Lexer {
    input: Vec<char>,
    size: usize,
    pos: usize,
    read_pos: usize,
    ch: Option<char>,
}

/// The mathematical content of a `Lexer`: the input and the cursor position.
pub ghost struct LexerView {
    pub input: Seq<char>,
    pub pos: int,
}

impl View for Lexer {
    type V = LexerView;

    closed spec fn view(&self) -> LexerView {
        LexerView { input: self.input@, pos: self.pos as int }
    }
}

impl Lexer {
    /// The scanner's internal consistency: the cursor sits on a character of
    /// the input or just past its end, the read position follows one step
    /// behind the end, and the cached character is the one under the cursor.
    pub closed spec fn wf(&self) -> bool {
        &&& self.size == self.input@.len()
        &&& self.pos <= self.size
        &&& self.read_pos == if self.pos < self.size {
            self.pos as int + 1
        } else {
            self.size as int
        }
        &&& self.ch == if self.pos < self.size {
            Some(self.input@[self.pos as int])
        } else {
            None::<char>
        }
    }

    /// Builds a scanner over `input` with the first character, if any,
    /// already under the cursor.
    pub fn new(input: Vec<char>) -> (lexer: Lexer)
        ensures
            lexer.wf(),
            lexer@.input == input@,
            lexer@.pos == 0,
    {
        let size = input.len();
        let mut lexer = Lexer { input, size, pos: 0, read_pos: 0, ch: None };
        lexer.read_char();
        lexer
    }

    /// Loads the character at the read position, if any, and steps the
    /// cursor onto it; past the end the cursor rests at the input's length.
    fn read_char(&mut self)
        requires
            old(self).size == old(self).input@.len(),
            old(self).read_pos <= old(self).size,
        ensures
            final(self).wf(),
            final(self)@.input == old(self)@.input,
            final(self)@.pos == if old(self).read_pos < old(self).size {
                old(self).read_pos as int
            } else {
                old(self).size as int
            },
    {
        if self.read_pos < self.size {
            self.ch = Some(self.input[self.read_pos]);
            self.pos = self.read_pos;
            self.read_pos = self.read_pos + 1;
        } else {
            self.ch = None;
            self.pos = self.size;
            self.read_pos = self.size;
        }
    }

    /// Previews the character after the cursor without consuming anything.
    fn peek_char(&self) -> (c: Option<char>)
        requires
            self.wf(),
        ensures
            c == if self@.pos + 1 < self@.input.len() {
                Some(self@.input[self@.pos + 1])
            } else {
                None::<char>
            },
    {
        if self.read_pos < self.size {
            Some(self.input[self.read_pos])
        } else {
            None
        }
    }

    /// Whether the cursor stands on a whitespace character.
    fn is_whitespace(&self) -> (b: bool)
        requires
            self.wf(),
        ensures
            b == (self@.pos < self@.input.len() && is_whitespace_char(
                self@.input[self@.pos],
            )),
    {
        match self.ch {
            Some(c) => c == ' ' || c == '\t' || c == '\n' || c == '\r',
            None => false,
        }
    }

    /// Whether the cursor stands on an alphabetic character.
    fn is_alphabetic_now(&self) -> (b: bool)
        requires
            self.wf(),
        ensures
            b == (self@.pos < self@.input.len() && is_alphabetic_char(
                self@.input[self@.pos],
            )),
    {
        match self.ch {
            Some(c) => c.is_alphabetic(),
            None => false,
        }
    }

    /// Whether the cursor stands on a decimal digit.
    fn is_digit_now(&self) -> (b: bool)
        requires
            self.wf(),
        ensures
            b == (self@.pos < self@.input.len() && is_digit_char(self@.input[self@.pos])),
    {
        match self.ch {
            Some(c) => '0' <= c && c <= '9',
            None => false,
        }
    }

    /// Moves the cursor past the run of whitespace under it.
    fn skip_whitespaces(&mut self)
        requires
            old(self).wf(),
        ensures
            final(self).wf(),
            final(self)@.input == old(self)@.input,
            final(self)@.pos == ws_end(old(self)@.input, old(self)@.pos),
    {
        while self.is_whitespace()
            invariant
                self.wf(),
                self@.input == old(self)@.input,
                ws_end(self@.input, self@.pos) == ws_end(self@.input, old(self)@.pos),
            decreases self@.input.len() - self@.pos,
        {
            self.read_char();
        }
    }

    /// Consumes the maximal alphabetic run under the cursor and returns it.
    fn read_identifier(&mut self) -> (literal: String)
        requires
            old(self).wf(),
        ensures
            final(self).wf(),
            final(self)@.input == old(self)@.input,
            final(self)@.pos == alpha_end(old(self)@.input, old(self)@.pos),
            literal@ == old(self)@.input.subrange(old(self)@.pos, final(self)@.pos),
    {
        let mut literal = String::new();
        while self.is_alphabetic_now()
            invariant
                self.wf(),
                self@.input == old(self)@.input,
                old(self)@.pos <= self@.pos <= self@.input.len(),
                alpha_end(self@.input, self@.pos) == alpha_end(self@.input, old(self)@.pos),
                literal@ == self@.input.subrange(old(self)@.pos, self@.pos),
            decreases self@.input.len() - self@.pos,
        {
            if let Some(c) = self.ch {
                push_char(&mut literal, c);
            }
            self.read_char();
            proof {
                assert(literal@ =~= self@.input.subrange(old(self)@.pos, self@.pos));
            }
        }
        literal
    }

    /// Consumes the maximal digit run under the cursor and returns it.
    fn read_number(&mut self) -> (literal: String)
        requires
            old(self).wf(),
        ensures
            final(self).wf(),
            final(self)@.input == old(self)@.input,
            final(self)@.pos == digit_end(old(self)@.input, old(self)@.pos),
            literal@ == old(self)@.input.subrange(old(self)@.pos, final(self)@.pos),
    {
        let mut literal = String::new();
        while self.is_digit_now()
            invariant
                self.wf(),
                self@.input == old(self)@.input,
                old(self)@.pos <= self@.pos <= self@.input.len(),
                digit_end(self@.input, self@.pos) == digit_end(self@.input, old(self)@.pos),
                literal@ == self@.input.subrange(old(self)@.pos, self@.pos),
            decreases self@.input.len() - self@.pos,
        {
            if let Some(c) = self.ch {
                push_char(&mut literal, c);
            }
            self.read_char();
            proof {
                assert(literal@ =~= self@.input.subrange(old(self)@.pos, self@.pos));
            }
        }
        literal
    }
}

// ---------------------------------------------------------------------------
// The whole token stream
// ---------------------------------------------------------------------------

/// The sequence of tokens that scanning yields from position `i` to the end
/// of the input, the final end-of-input token included.
pub open spec fn spec_tokens(input: Seq<char>, i: int) -> Seq<TokenView>
    decreases input.len() - i + 1,
        when 0 <= i <= input.len()
        via spec_tokens_decreases
{
    let p = ws_end(input, i);
    if p >= input.len() {
        seq![TokenView { kind: TokenType::Eof, text: Seq::empty() }]
    } else {
        seq![token_view_at(input, p)] + spec_tokens(input, next_pos_at(input, p))
    }
}

#[via_fn]
proof fn spec_tokens_decreases(input: Seq<char>, i: int) {
    lemma_ws_end(input, i);
    lemma_next_pos_at(input, ws_end(input, i));
}

/// The views of the tokens in `tokens`, in order.
pub open spec fn views_of(tokens: Seq<Token>) -> Seq<TokenView> {
    tokens.map_values(|t: Token| t@)
}

impl Lexer {
    /// Produces the next token: skips whitespace, classifies what the cursor
    /// then stands on, and leaves the cursor on the first unconsumed
    /// character. At the end of the input it produces the end-of-input
    /// token and the cursor stays put.
    pub fn next_token(&mut self) -> (t: Token)
        requires
            old(self).wf(),
        ensures
            final(self).wf(),
            final(self)@.input == old(self)@.input,
            t@ == token_view_at(old(self)@.input, ws_end(old(self)@.input, old(self)@.pos)),
            final(self)@.pos == next_pos_at(
                old(self)@.input,
                ws_end(old(self)@.input, old(self)@.pos),
            ),
    {
        self.skip_whitespaces();
        let token: Token = match self.ch {
            Some('=') => {
                if matches!(self.peek_char(), Some('=')) {
                    self.read_char();
                    Token::new(TokenType::Equal, String::from_str("=="))
                } else {
                    Token::new(TokenType::Assign, String::from_str("="))
                }
            },
            Some('!') => {
                if matches!(self.peek_char(), Some('=')) {
                    self.read_char();
                    Token::new(TokenType::NotEqual, String::from_str("!="))
                } else {
                    Token::new(TokenType::Bang, String::from_str("!"))
                }
            },
            Some('+') => Token::new(TokenType::Plus, String::from_str("+")),
            Some('-') => Token::new(TokenType::Minus, String::from_str("-")),
            Some('/') => Token::new(TokenType::Slash, String::from_str("/")),
            Some('*') => Token::new(TokenType::Asterisk, String::from_str("*")),
            Some('<') => Token::new(TokenType::LessThan, String::from_str("<")),
            Some('>') => Token::new(TokenType::GreaterThan, String::from_str(">")),
            Some(';') => Token::new(TokenType::Semicolon, String::from_str(";")),
            Some(',') => Token::new(TokenType::Comma, String::from_str(",")),
            Some('{') => Token::new(TokenType::LBrace, String::from_str("{")),
            Some('}') => Token::new(TokenType::RBrace, String::from_str("}")),
            Some('(') => Token::new(TokenType::LParen, String::from_str("(")),
            Some(')') => Token::new(TokenType::RParen, String::from_str(")")),
            None => Token::new(TokenType::Eof, String::new()),
            Some(c) => {
                if c.is_alphabetic() {
                    let literal = self.read_identifier();
                    let name = lookup(literal.as_str());
                    return Token::new(name, literal);
                } else if '0' <= c && c <= '9' {
                    let literal = self.read_number();
                    return Token::new(TokenType::Integer, literal);
                } else {
                    let mut text = String::new();
                    push_char(&mut text, c);
                    proof {
                        assert(text@ =~= seq![c]);
                    }
                    Token::new(TokenType::Illegal, text)
                }
            },
        };
        self.read_char();
        token
    }

    /// Drives `next_token` until it has produced the end-of-input token and
    /// collects every token, that one included, in order.
    pub fn run(&mut self) -> (tokens: Vec<Token>)
        requires
            old(self).wf(),
        ensures
            final(self).wf(),
            final(self)@.input == old(self)@.input,
            final(self)@.pos == old(self)@.input.len(),
            views_of(tokens@) == spec_tokens(old(self)@.input, old(self)@.pos),
    {
        let ghost inp = old(self)@.input;
        let ghost pos0 = old(self)@.pos;
        let mut tokens: Vec<Token> = Vec::new();
        loop
            invariant_except_break
                self.wf(),
                self@.input == inp,
                0 <= pos0 <= inp.len(),
                spec_tokens(inp, pos0) == views_of(tokens@) + spec_tokens(inp, self@.pos),
            ensures
                self.wf(),
                self@.input == inp,
                self@.pos == inp.len(),
                views_of(tokens@) == spec_tokens(inp, pos0),
            decreases inp.len() - self@.pos,
        {
            let ghost pos_before = self@.pos;
            let ghost collected = tokens@;
            let t = self.next_token();
            let stop = t.is_eof();
            tokens.push(t);
            proof {
                let p = ws_end(inp, pos_before);
                lemma_ws_end(inp, pos_before);
                lemma_next_pos_at(inp, p);
                assert(views_of(tokens@) =~= views_of(collected).push(t@));
                if p >= inp.len() {
                    assert(spec_tokens(inp, pos_before) =~= seq![t@]);
                    assert(views_of(tokens@) =~= views_of(collected) + seq![t@]);
                } else {
                    assert(t@.kind != TokenType::Eof);
                    assert(spec_tokens(inp, pos_before) =~= seq![t@] + spec_tokens(
                        inp,
                        self@.pos,
                    ));
                    assert(views_of(collected) + spec_tokens(inp, pos_before) =~= views_of(
                        tokens@,
                    ) + spec_tokens(inp, self@.pos));
                }
            }
            if stop {
                break ;
            }
        }
        tokens
    }
}

// ---------------------------------------------------------------------------
// Laws of the token stream
// ---------------------------------------------------------------------------

/// Law: scanning always terminates. From any position the token stream is
/// finite and holds at most one token per remaining character plus the final
/// end-of-input token; its last token, and only that one, is end-of-input.
pub proof fn lemma_scan_total(input: Seq<char>, i: int)
    requires
        0 <= i <= input.len(),
    ensures
        1 <= spec_tokens(input, i).len() <= input.len() - i + 1,
        spec_tokens(input, i).last().kind == TokenType::Eof,
        forall|k: int|
            0 <= k < spec_tokens(input, i).len() - 1 ==> (#[trigger] spec_tokens(input, i)[k]).kind
                != TokenType::Eof,
    decreases input.len() - i,
{
    let p = ws_end(input, i);
    lemma_ws_end(input, i);
    if p < input.len() {
        lemma_next_pos_at(input, p);
        lemma_scan_total(input, next_pos_at(input, p));
        let rest = spec_tokens(input, next_pos_at(input, p));
        assert(spec_tokens(input, i) =~= seq![token_view_at(input, p)] + rest);
        assert forall|k: int| 0 <= k < spec_tokens(input, i).len() - 1 implies (
        #[trigger] spec_tokens(input, i)[k]).kind != TokenType::Eof by {
            if k > 0 {
                assert(spec_tokens(input, i)[k] == rest[k - 1]);
            }
        }
    }
}

/// Law: whitespace is transparent. Stepping the start of the scan over any
/// run of whitespace characters leaves the token stream unchanged: leading
/// whitespace produces no tokens.
pub proof fn lemma_whitespace_transparent(input: Seq<char>, i: int, k: int)
    requires
        0 <= i <= k <= input.len(),
        forall|j: int| i <= j < k ==> is_whitespace_char(#[trigger] input[j]),
    ensures
        spec_tokens(input, i) == spec_tokens(input, k),
    decreases k - i,
{
    if i < k {
        lemma_whitespace_transparent(input, i + 1, k);
        assert(ws_end(input, i) == ws_end(input, i + 1));
        lemma_ws_end(input, i + 1);
        assert(spec_tokens(input, i) == spec_tokens(input, i + 1));
    }
}

/// Law: an input that is one unbroken alphabetic run scans as a single
/// token carrying exactly that run as its text — the matching keyword token
/// where the run spells a reserved word, an identifier otherwise — followed
/// by the end-of-input token.
pub proof fn lemma_alphabetic_run(input: Seq<char>)
    requires
        input.len() > 0,
        forall|k: int| 0 <= k < input.len() ==> is_alphabetic_char(#[trigger] input[k]),
    ensures
        spec_tokens(input, 0) == seq![
            TokenView { kind: spec_lookup(input), text: input },
            TokenView { kind: TokenType::Eof, text: Seq::empty() },
        ],
        !crate::token::spec_is_keyword(input) ==> spec_lookup(input) == TokenType::Identifier,
{
    lemma_alpha_end_all(input, 0);
    assert(input.subrange(0, input.len() as int) =~= input);
    assert(spec_tokens(input, input.len() as int) =~= seq![
        TokenView { kind: TokenType::Eof, text: Seq::empty() },
    ]);
    assert(spec_tokens(input, 0) =~= seq![
        TokenView { kind: spec_lookup(input), text: input },
        TokenView { kind: TokenType::Eof, text: Seq::empty() },
    ]);
}

/// Law: an input that is one unbroken digit run scans as a single integer
/// token carrying exactly that run as its text, followed by the
/// end-of-input token.
pub proof fn lemma_digit_run(input: Seq<char>)
    requires
        input.len() > 0,
        forall|k: int| 0 <= k < input.len() ==> is_digit_char(#[trigger] input[k]),
    ensures
        spec_tokens(input, 0) == seq![
            TokenView { kind: TokenType::Integer, text: input },
            TokenView { kind: TokenType::Eof, text: Seq::empty() },
        ],
{
    lemma_digit_end_all(input, 0);
    assert(input.subrange(0, input.len() as int) =~= input);
    assert(spec_tokens(input, input.len() as int) =~= seq![
        TokenView { kind: TokenType::Eof, text: Seq::empty() },
    ]);
    assert(spec_tokens(input, 0) =~= seq![
        TokenView { kind: TokenType::Integer, text: input },
        TokenView { kind: TokenType::Eof, text: Seq::empty() },
    ]);
}

proof fn lemma_alpha_end_all(input: Seq<char>, i: int)
    requires
        0 <= i <= input.len(),
        forall|k: int| i <= k < input.len() ==> is_alphabetic_char(#[trigger] input[k]),
    ensures
        alpha_end(input, i) == input.len(),
    decreases input.len() - i,
{
    if i < input.len() {
        lemma_alpha_end_all(input, i + 1);
    }
}

proof fn lemma_digit_end_all(input: Seq<char>, i: int)
    requires
        0 <= i <= input.len(),
        forall|k: int| i <= k < input.len() ==> is_digit_char(#[trigger] input[k]),
    ensures
        digit_end(input, i) == input.len(),
    decreases input.len() - i,
{
    if i < input.len() {
        lemma_digit_end_all(input, i + 1);
    }
}

} // verus!
