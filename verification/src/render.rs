//! The textual rendering of tokens and errors, for people to read.

use crate::scanner::scan;
use crate::token::{
    token_views, ErrorView, LiteralValue, LiteralView, ScannerError, Token, TokenType, TokenView,
};
use vstd::prelude::*;
use vstd::string::StringExecFns;

verus! {

/// The name of a token kind.
pub open spec fn kind_name(kind: TokenType) -> Seq<char> {
    match kind {
        TokenType::LeftParen => "LeftParen"@,
        TokenType::RightParen => "RightParen"@,
        TokenType::LeftBrace => "LeftBrace"@,
        TokenType::RightBrace => "RightBrace"@,
        TokenType::Comma => "Comma"@,
        TokenType::Dot => "Dot"@,
        TokenType::Minus => "Minus"@,
        TokenType::Plus => "Plus"@,
        TokenType::Semicolon => "Semicolon"@,
        TokenType::Slash => "Slash"@,
        TokenType::Star => "Star"@,
        TokenType::Bang => "Bang"@,
        TokenType::BangEqual => "BangEqual"@,
        TokenType::Equal => "Equal"@,
        TokenType::EqualEqual => "EqualEqual"@,
        TokenType::Greater => "Greater"@,
        TokenType::GreaterEqual => "GreaterEqual"@,
        TokenType::Less => "Less"@,
        TokenType::LessEqual => "LessEqual"@,
        TokenType::Identifier => "Identifier"@,
        TokenType::String => "String"@,
        TokenType::Number => "Number"@,
        TokenType::And => "And"@,
        TokenType::Class => "Class"@,
        TokenType::Else => "Else"@,
        TokenType::False => "False"@,
        TokenType::Fun => "Fun"@,
        TokenType::For => "For"@,
        TokenType::If => "If"@,
        TokenType::Nil => "Nil"@,
        TokenType::Or => "Or"@,
        TokenType::Print => "Print"@,
        TokenType::Return => "Return"@,
        TokenType::Super => "Super"@,
        TokenType::This => "This"@,
        TokenType::True => "True"@,
        TokenType::Var => "Var"@,
        TokenType::While => "While"@,
        TokenType::Eof => "Eof"@,
    }
}

/// The decimal digit for `d`, which is below 10.
pub open spec fn digit_char(d: nat) -> char {
    if d == 0 {
        '0'
    } else if d == 1 {
        '1'
    } else if d == 2 {
        '2'
    } else if d == 3 {
        '3'
    } else if d == 4 {
        '4'
    } else if d == 5 {
        '5'
    } else if d == 6 {
        '6'
    } else if d == 7 {
        '7'
    } else if d == 8 {
        '8'
    } else {
        '9'
    }
}

/// The decimal numeral of `n`, without leading zeros.
pub open spec fn decimal(n: nat) -> Seq<char>
    decreases n,
{
    if n < 10 {
        seq![digit_char(n)]
    } else {
        decimal(n / 10).push(digit_char(n % 10))
    }
}

/// The text of a payload: the numeral or the text as it stands.
pub open spec fn literal_text(literal: LiteralView) -> Seq<char> {
    match literal {
        LiteralView::Number(numeral) => numeral,
        LiteralView::String(text) => text,
    }
}

/// The rendering of a token: its kind, then line and column in round
/// brackets, then the payload, where it has one, in square brackets.
pub open spec fn token_text(token: TokenView) -> Seq<char> {
    let head = kind_name(token.token_type) + seq!['('] + decimal(token.line) + seq![',']
        + decimal(token.character) + seq![')'];
    match token.literal {
        Some(literal) => head + seq!['['] + literal_text(literal) + seq![']'],
        None => head,
    }
}

/// The rendering of an error: location, line and column in square brackets,
/// separated by colons, then a space and the message.
pub open spec fn error_text(error: ErrorView) -> Seq<char> {
    seq!['['] + error.location + seq![':'] + decimal(error.line) + seq![':'] + decimal(
        error.character,
    ) + seq![']', ' '] + error.message
}

/// The rendering of a token sequence: each token's rendering on a line of
/// its own.
pub open spec fn pretty_text(tokens: Seq<TokenView>) -> Seq<char>
    decreases tokens.len(),
{
    if tokens.len() == 0 {
        Seq::empty()
    } else {
        pretty_text(tokens.drop_last()) + token_text(tokens.last()) + seq!['\n']
    }
}

fn digit_of(d: usize) -> (c: char)
    requires
        d < 10,
    ensures
        c == digit_char(d as nat),
{
    if d == 0 {
        '0'
    } else if d == 1 {
        '1'
    } else if d == 2 {
        '2'
    } else if d == 3 {
        '3'
    } else if d == 4 {
        '4'
    } else if d == 5 {
        '5'
    } else if d == 6 {
        '6'
    } else if d == 7 {
        '7'
    } else if d == 8 {
        '8'
    } else {
        '9'
    }
}

/// Appends the decimal numeral of `n` to `out`.
fn push_decimal(out: &mut String, n: usize)
    ensures
        final(out)@ == old(out)@ + decimal(n as nat),
    decreases n,
{
    if n >= 10 {
        push_decimal(out, n / 10);
    }
    out.push(digit_of(n % 10));
    proof {
        if n >= 10 {
            assert(old(out)@ + decimal(n as nat) =~= (old(out)@ + decimal((n / 10) as nat)).push(
                digit_char((n % 10) as nat),
            ));
        } else {
            assert(old(out)@ + decimal(n as nat) =~= old(out)@.push(digit_char(n as nat)));
        }
    }
}

/// The name of a token kind.
pub fn kind_name_of(kind: TokenType) -> (name: &'static str)
    ensures
        name@ == kind_name(kind),
{
    match kind {
        TokenType::LeftParen => "LeftParen",
        TokenType::RightParen => "RightParen",
        TokenType::LeftBrace => "LeftBrace",
        TokenType::RightBrace => "RightBrace",
        TokenType::Comma => "Comma",
        TokenType::Dot => "Dot",
        TokenType::Minus => "Minus",
        TokenType::Plus => "Plus",
        TokenType::Semicolon => "Semicolon",
        TokenType::Slash => "Slash",
        TokenType::Star => "Star",
        TokenType::Bang => "Bang",
        TokenType::BangEqual => "BangEqual",
        TokenType::Equal => "Equal",
        TokenType::EqualEqual => "EqualEqual",
        TokenType::Greater => "Greater",
        TokenType::GreaterEqual => "GreaterEqual",
        TokenType::Less => "Less",
        TokenType::LessEqual => "LessEqual",
        TokenType::Identifier => "Identifier",
        TokenType::String => "String",
        TokenType::Number => "Number",
        TokenType::And => "And",
        TokenType::Class => "Class",
        TokenType::Else => "Else",
        TokenType::False => "False",
        TokenType::Fun => "Fun",
        TokenType::For => "For",
        TokenType::If => "If",
        TokenType::Nil => "Nil",
        TokenType::Or => "Or",
        TokenType::Print => "Print",
        TokenType::Return => "Return",
        TokenType::Super => "Super",
        TokenType::This => "This",
        TokenType::True => "True",
        TokenType::Var => "Var",
        TokenType::While => "While",
        TokenType::Eof => "Eof",
    }
}

/// Appends the rendering of `token` to `out`.
fn push_token(out: &mut String, token: &Token)
    ensures
        final(out)@ == old(out)@ + token_text(token@),
{
    out.append(kind_name_of(token.token_type));
    out.push('(');
    push_decimal(out, token.line);
    out.push(',');
    push_decimal(out, token.character);
    out.push(')');
    let ghost head = kind_name(token.token_type) + seq!['('] + decimal(token.line as nat) + seq![
        ',',
    ] + decimal(token.character as nat) + seq![')'];
    assert(out@ =~= old(out)@ + head);
    match &token.literal {
        Some(literal) => {
            out.push('[');
            match literal {
                LiteralValue::Number(numeral) => out.append(numeral.as_str()),
                LiteralValue::String(text) => out.append(text.as_str()),
            }
            out.push(']');
            assert(out@ =~= old(out)@ + (head + seq!['['] + literal_text(literal@) + seq![']']));
        },
        None => {},
    }
}

impl LiteralValue {
    /// The rendering of this payload: the numeral or the text as it stands.
    pub fn to_text(&self) -> (text: String)
        ensures
            text@ == literal_text(self@),
    {
        match self {
            LiteralValue::Number(numeral) => numeral.clone(),
            LiteralValue::String(text) => text.clone(),
        }
    }
}

impl Token {
    /// The rendering of this token, such as `Identifier(1,1)[test]`.
    pub fn to_text(&self) -> (text: String)
        ensures
            text@ == token_text(self@),
    {
        let mut text = String::new();
        push_token(&mut text, self);
        assert(Seq::<char>::empty() + token_text(self@) =~= token_text(self@));
        text
    }
}

impl ScannerError {
    /// The rendering of this error, such as `[:1:4] Unterminated string.`.
    pub fn to_text(&self) -> (text: String)
        ensures
            text@ == error_text(self@),
    {
        let mut text = String::new();
        text.push('[');
        text.append(self.location.as_str());
        text.push(':');
        push_decimal(&mut text, self.line);
        text.push(':');
        push_decimal(&mut text, self.character);
        text.push(']');
        text.push(' ');
        text.append(self.message.as_str());
        assert(text@ =~= error_text(self@));
        text
    }
}

/// Renders a token sequence, one token to a line.
pub fn pretty(tokens: &Vec<Token>) -> (text: String)
    ensures
        text@ == pretty_text(token_views(tokens@)),
{
    let mut text = String::new();
    let mut i: usize = 0;
    while i < tokens.len()
        invariant
            i <= tokens@.len(),
            text@ == pretty_text(token_views(tokens@.take(i as int))),
        decreases tokens@.len() - i,
    {
        push_token(&mut text, &tokens[i]);
        text.push('\n');
        proof {
            let next = token_views(tokens@.take(i + 1));
            assert(next.drop_last() =~= token_views(tokens@.take(i as int)));
            assert(next.last() == tokens@[i as int]@);
            assert(text@ =~= pretty_text(next.drop_last()) + token_text(next.last()) + seq![
                '\n',
            ]);
        }
        i += 1;
    }
    proof {
        assert(tokens@.take(tokens@.len() as int) =~= tokens@);
    }
    text
}

/// Scans `input` and renders its tokens.
pub fn run_lox(input: String) -> (output: String)
    requires
        input@.len() < usize::MAX,
    ensures
        output@ == pretty_text(crate::grammar::scan_tokens(input@, 0)),
{
    let found = scan(input.as_str());
    pretty(&found.0)
}

} // verus!
