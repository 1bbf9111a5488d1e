//! Tokens, their kinds and literal payloads, and scan errors.

use crate::text::{chars_of, spells};
use vstd::prelude::*;

verus! {

/// The closed set of token kinds.
#[derive(Clone, Copy, Debug, PartialEq, Eq, Structural)]
pub enum TokenType {
    // Single-character tokens.
    LeftParen,
    RightParen,
    LeftBrace,
    RightBrace,
    Comma,
    Dot,
    Minus,
    Plus,
    Semicolon,
    Slash,
    Star,
    // One or two character tokens.
    Bang,
    BangEqual,
    Equal,
    EqualEqual,
    Greater,
    GreaterEqual,
    Less,
    LessEqual,
    // Literals.
    Identifier,
    String,
    Number,
    // Keywords.
    And,
    Class,
    Else,
    False,
    Fun,
    For,
    If,
    Nil,
    Or,
    Print,
    Return,
    Super,
    This,
    True,
    Var,
    While,
    Eof,
}

/// The keyword that `word` spells, if it spells one. The match is exact and
/// case-sensitive.
pub open spec fn keyword_kind(word: Seq<char>) -> Option<TokenType> {
    if word == "and"@ {
        Some(TokenType::And)
    } else if word == "class"@ {
        Some(TokenType::Class)
    } else if word == "else"@ {
        Some(TokenType::Else)
    } else if word == "false"@ {
        Some(TokenType::False)
    } else if word == "for"@ {
        Some(TokenType::For)
    } else if word == "fun"@ {
        Some(TokenType::Fun)
    } else if word == "if"@ {
        Some(TokenType::If)
    } else if word == "nil"@ {
        Some(TokenType::Nil)
    } else if word == "or"@ {
        Some(TokenType::Or)
    } else if word == "print"@ {
        Some(TokenType::Print)
    } else if word == "return"@ {
        Some(TokenType::Return)
    } else if word == "super"@ {
        Some(TokenType::Super)
    } else if word == "this"@ {
        Some(TokenType::This)
    } else if word == "true"@ {
        Some(TokenType::True)
    } else if word == "var"@ {
        Some(TokenType::Var)
    } else if word == "while"@ {
        Some(TokenType::While)
    } else {
        None
    }
}

/// The spelling of each keyword, character by character.
pub proof fn lemma_keyword_spellings()
    ensures
        "and"@ == seq!['a', 'n', 'd'],
        "class"@ == seq!['c', 'l', 'a', 's', 's'],
        "else"@ == seq!['e', 'l', 's', 'e'],
        "false"@ == seq!['f', 'a', 'l', 's', 'e'],
        "for"@ == seq!['f', 'o', 'r'],
        "fun"@ == seq!['f', 'u', 'n'],
        "if"@ == seq!['i', 'f'],
        "nil"@ == seq!['n', 'i', 'l'],
        "or"@ == seq!['o', 'r'],
        "print"@ == seq!['p', 'r', 'i', 'n', 't'],
        "return"@ == seq!['r', 'e', 't', 'u', 'r', 'n'],
        "super"@ == seq!['s', 'u', 'p', 'e', 'r'],
        "this"@ == seq!['t', 'h', 'i', 's'],
        "true"@ == seq!['t', 'r', 'u', 'e'],
        "var"@ == seq!['v', 'a', 'r'],
        "while"@ == seq!['w', 'h', 'i', 'l', 'e'],
{
    reveal_strlit("and");
    reveal_strlit("class");
    reveal_strlit("else");
    reveal_strlit("false");
    reveal_strlit("for");
    reveal_strlit("fun");
    reveal_strlit("if");
    reveal_strlit("nil");
    reveal_strlit("or");
    reveal_strlit("print");
    reveal_strlit("return");
    reveal_strlit("super");
    reveal_strlit("this");
    reveal_strlit("true");
    reveal_strlit("var");
    reveal_strlit("while");
    assert("and"@ =~= seq!['a', 'n', 'd']);
    assert("class"@ =~= seq!['c', 'l', 'a', 's', 's']);
    assert("else"@ =~= seq!['e', 'l', 's', 'e']);
    assert("false"@ =~= seq!['f', 'a', 'l', 's', 'e']);
    assert("for"@ =~= seq!['f', 'o', 'r']);
    assert("fun"@ =~= seq!['f', 'u', 'n']);
    assert("if"@ =~= seq!['i', 'f']);
    assert("nil"@ =~= seq!['n', 'i', 'l']);
    assert("or"@ =~= seq!['o', 'r']);
    assert("print"@ =~= seq!['p', 'r', 'i', 'n', 't']);
    assert("return"@ =~= seq!['r', 'e', 't', 'u', 'r', 'n']);
    assert("super"@ =~= seq!['s', 'u', 'p', 'e', 'r']);
    assert("this"@ =~= seq!['t', 'h', 'i', 's']);
    assert("true"@ =~= seq!['t', 'r', 'u', 'e']);
    assert("var"@ =~= seq!['v', 'a', 'r']);
    assert("while"@ =~= seq!['w', 'h', 'i', 'l', 'e']);
}

impl TokenType {
    /// The keyword kind that `identifier` spells, or `None` where it is an
    /// ordinary name.
    pub fn keyword(identifier: &str) -> (kind: Option<TokenType>)
        ensures
            kind == keyword_kind(identifier@),
    {
        let word = chars_of(identifier);
        Self::keyword_of_word(word.as_slice())
    }

    /// As `keyword`, on a word already split into characters. The first
    /// character selects the few keywords that can still match.
    pub fn keyword_of_word(word: &[char]) -> (kind: Option<TokenType>)
        ensures
            kind == keyword_kind(word@),
    {
        proof {
            lemma_keyword_spellings();
        }
        if word.len() < 2 {
            return None;
        }
        let first = word[0];
        if first == 'a' {
            if spells(word, "and") { Some(TokenType::And) } else { None }
        } else if first == 'c' {
            if spells(word, "class") { Some(TokenType::Class) } else { None }
        } else if first == 'e' {
            if spells(word, "else") { Some(TokenType::Else) } else { None }
        } else if first == 'f' {
            if spells(word, "false") {
                Some(TokenType::False)
            } else if spells(word, "for") {
                Some(TokenType::For)
            } else if spells(word, "fun") {
                Some(TokenType::Fun)
            } else {
                None
            }
        } else if first == 'i' {
            if spells(word, "if") { Some(TokenType::If) } else { None }
        } else if first == 'n' {
            if spells(word, "nil") { Some(TokenType::Nil) } else { None }
        } else if first == 'o' {
            if spells(word, "or") { Some(TokenType::Or) } else { None }
        } else if first == 'p' {
            if spells(word, "print") { Some(TokenType::Print) } else { None }
        } else if first == 'r' {
            if spells(word, "return") { Some(TokenType::Return) } else { None }
        } else if first == 's' {
            if spells(word, "super") { Some(TokenType::Super) } else { None }
        } else if first == 't' {
            if spells(word, "this") {
                Some(TokenType::This)
            } else if spells(word, "true") {
                Some(TokenType::True)
            } else {
                None
            }
        } else if first == 'v' {
            if spells(word, "var") { Some(TokenType::Var) } else { None }
        } else if first == 'w' {
            if spells(word, "while") { Some(TokenType::While) } else { None }
        } else {
            None
        }
    }
}

/// The payload of a literal token.
#[derive(Clone, Debug, PartialEq, Eq)]
pub enum LiteralValue {
    /// The decimal numeral of a number literal, as written: digits, and
    /// optionally a point followed by digits.
    Number(String),
    /// The text of a string literal, or the spelling of a name or keyword.
    String(String),
}

/// What a `LiteralValue` holds, as character sequences.
pub enum LiteralView {
    Number(Seq<char>),
    String(Seq<char>),
}

impl View for LiteralValue {
    type V = LiteralView;

    open spec fn view(&self) -> LiteralView {
        match self {
            LiteralValue::Number(n) => LiteralView::Number(n@),
            LiteralValue::String(s) => LiteralView::String(s@),
        }
    }
}

/// The view of an optional payload.
pub open spec fn literal_view(literal: Option<LiteralValue>) -> Option<LiteralView> {
    match literal {
        Some(l) => Some(l@),
        None => None,
    }
}

/// A classified, positioned unit of the input.
#[derive(Clone, Debug, PartialEq, Eq)]
pub struct Token {
    pub token_type: TokenType,
    pub literal: Option<LiteralValue>,
    /// The line, counted from 1, on which the token ends.
    pub line: usize,
    /// The number of characters of that line up to the token's end.
    pub character: usize,
}

/// What a `Token` holds, as mathematical values.
pub struct TokenView {
    pub token_type: TokenType,
    pub literal: Option<LiteralView>,
    pub line: nat,
    pub character: nat,
}

impl View for Token {
    type V = TokenView;

    open spec fn view(&self) -> TokenView {
        TokenView {
            token_type: self.token_type,
            literal: literal_view(self.literal),
            line: self.line as nat,
            character: self.character as nat,
        }
    }
}

impl Token {
    /// A token with the given kind, payload and position.
    pub fn new(
        token_type: TokenType,
        literal: Option<LiteralValue>,
        line: usize,
        character: usize,
    ) -> (token: Token)
        ensures
            token == (Token { token_type, literal, line, character }),
    {
        Token { token_type, literal, line, character }
    }

    /// A token without a payload.
    pub fn token(token_type: TokenType, line: usize, character: usize) -> (token: Token)
        ensures
            token == (Token { token_type, literal: None, line, character }),
    {
        Token::new(token_type, None, line, character)
    }

    /// The end-of-input token.
    pub fn eof(line: usize, character: usize) -> (token: Token)
        ensures
            token == (Token { token_type: TokenType::Eof, literal: None, line, character }),
    {
        Token::new(TokenType::Eof, None, line, character)
    }
}

/// A lexical error. Errors are advisory: scanning goes on after each.
#[derive(Clone, Debug, PartialEq, Eq)]
pub struct ScannerError {
    /// A free-form context; empty unless a caller names one.
    pub location: String,
    pub line: usize,
    pub character: usize,
    pub message: String,
}

/// What a `ScannerError` holds, as mathematical values.
pub struct ErrorView {
    pub location: Seq<char>,
    pub line: nat,
    pub character: nat,
    pub message: Seq<char>,
}

impl View for ScannerError {
    type V = ErrorView;

    open spec fn view(&self) -> ErrorView {
        ErrorView {
            location: self.location@,
            line: self.line as nat,
            character: self.character as nat,
            message: self.message@,
        }
    }
}

/// The views of a sequence of tokens.
pub open spec fn token_views(tokens: Seq<Token>) -> Seq<TokenView> {
    tokens.map_values(|t: Token| t@)
}

/// The views of a sequence of errors.
pub open spec fn error_views(errors: Seq<ScannerError>) -> Seq<ErrorView> {
    errors.map_values(|e: ScannerError| e@)
}

} // verus!
