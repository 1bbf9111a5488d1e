//! The lexical grammar, as mathematical functions on a sequence of characters.
//!
//! `scan_tokens` and `scan_errors` say which tokens and which errors a text
//! has. They are built from `lexeme_at` and `lexeme_end`, which describe the
//! one lexeme that starts at a given offset, and from `line_at` and
//! `column_at`, which give the position of the cursor after a prefix of the
//! text has been consumed.

use crate::text::{alpha, digit};
use crate::token::{keyword_kind, ErrorView, LiteralView, TokenType, TokenView};
use vstd::prelude::*;

verus! {

/// The line of the cursor after the first `n` characters of `s`: one more
/// than the number of newlines among them.
pub open spec fn line_at(s: Seq<char>, n: int) -> nat
    decreases n,
{
    if n <= 0 {
        1
    } else if s[n - 1] == '\n' {
        line_at(s, n - 1) + 1
    } else {
        line_at(s, n - 1)
    }
}

/// The column of the cursor after the first `n` characters of `s`: the number
/// of characters consumed since the last newline, 0 right after one.
pub open spec fn column_at(s: Seq<char>, n: int) -> nat
    decreases n,
{
    if n <= 0 {
        0
    } else if s[n - 1] == '\n' {
        0
    } else {
        column_at(s, n - 1) + 1
    }
}

/// Whether `c` may continue a name: an ASCII letter, an ASCII digit or `_`.
pub open spec fn word_char(c: char) -> bool {
    alpha(c) || digit(c) || c == '_'
}

/// The number of ASCII digits that stand in a row from offset `i` on.
pub open spec fn digit_run(s: Seq<char>, i: int) -> nat
    decreases s.len() - i,
{
    if 0 <= i < s.len() && digit(s[i]) {
        1 + digit_run(s, i + 1)
    } else {
        0
    }
}

/// The number of name characters that stand in a row from offset `i` on.
pub open spec fn word_run(s: Seq<char>, i: int) -> nat
    decreases s.len() - i,
{
    if 0 <= i < s.len() && word_char(s[i]) {
        1 + word_run(s, i + 1)
    } else {
        0
    }
}

/// The number of characters from offset `i` up to the next occurrence of
/// `stop`, or up to the end of the text where there is none.
pub open spec fn run_until(s: Seq<char>, i: int, stop: char) -> nat
    decreases s.len() - i,
{
    if 0 <= i < s.len() && s[i] != stop {
        1 + run_until(s, i + 1, stop)
    } else {
        0
    }
}

/// Whether the two characters `*/` stand at offset `i`.
pub open spec fn comment_close_at(s: Seq<char>, i: int) -> bool {
    0 <= i && i + 1 < s.len() && s[i] == '*' && s[i + 1] == '/'
}

/// The number of characters of a block comment's interior that starts at
/// offset `i`, its closing `*/` included. A comment that is never closed runs
/// to the end of the text.
pub open spec fn comment_run(s: Seq<char>, i: int) -> nat
    decreases s.len() - i,
{
    if i < 0 || i >= s.len() {
        0
    } else if comment_close_at(s, i) {
        2
    } else {
        1 + comment_run(s, i + 1)
    }
}

/// Whether `c` at offset `i` is followed directly by `next`.
pub open spec fn followed_by(s: Seq<char>, i: int, next: char) -> bool {
    0 <= i && i + 1 < s.len() && s[i + 1] == next
}

/// The number of characters of the number literal that starts with the digit
/// at offset `i`: a run of digits, and a fractional part where a point with a
/// digit behind it follows.
pub open spec fn number_run(s: Seq<char>, i: int) -> nat {
    let whole = 1 + digit_run(s, i + 1);
    let point = i + whole;
    if 0 <= point < s.len() && s[point] == '.' && 0 <= point + 1 < s.len() && digit(
        s[point + 1],
    ) {
        whole + 1 + digit_run(s, point + 1)
    } else {
        whole
    }
}

/// The kind of a token that is one punctuation character.
pub open spec fn punctuation_kind(c: char) -> Option<TokenType> {
    if c == '(' {
        Some(TokenType::LeftParen)
    } else if c == ')' {
        Some(TokenType::RightParen)
    } else if c == '{' {
        Some(TokenType::LeftBrace)
    } else if c == '}' {
        Some(TokenType::RightBrace)
    } else if c == ',' {
        Some(TokenType::Comma)
    } else if c == '.' {
        Some(TokenType::Dot)
    } else if c == '-' {
        Some(TokenType::Minus)
    } else if c == '+' {
        Some(TokenType::Plus)
    } else if c == ';' {
        Some(TokenType::Semicolon)
    } else if c == '*' {
        Some(TokenType::Star)
    } else {
        None
    }
}

/// Whether `c` starts an operator that an `=` behind it makes longer.
pub open spec fn operator_char(c: char) -> bool {
    c == '!' || c == '=' || c == '<' || c == '>'
}

/// The kind of the operator that starts with `c`, with or without an `=`
/// behind it.
pub open spec fn operator_kind(c: char, with_equal: bool) -> TokenType {
    if c == '!' {
        if with_equal { TokenType::BangEqual } else { TokenType::Bang }
    } else if c == '=' {
        if with_equal { TokenType::EqualEqual } else { TokenType::Equal }
    } else if c == '<' {
        if with_equal { TokenType::LessEqual } else { TokenType::Less }
    } else {
        if with_equal { TokenType::GreaterEqual } else { TokenType::Greater }
    }
}

/// Whether `c` is discarded between tokens.
pub open spec fn blank(c: char) -> bool {
    c == ' ' || c == '\r' || c == '\t' || c == '\n'
}

/// The offset of the quote that closes the string opened at offset `i`, or
/// the length of the text where none does.
pub open spec fn closing_quote(s: Seq<char>, i: int) -> int {
    i + 1 + run_until(s, i + 1, '"')
}

/// The offset at which the lexeme that starts at offset `i` ends. It is
/// always behind `i`: every lexeme consumes at least one character.
pub open spec fn lexeme_end(s: Seq<char>, i: int) -> int {
    let c = s[i];
    if operator_char(c) {
        if followed_by(s, i, '=') { i + 2 } else { i + 1 }
    } else if c == '/' {
        if followed_by(s, i, '/') {
            i + 2 + run_until(s, i + 2, '\n')
        } else if followed_by(s, i, '*') {
            i + 2 + comment_run(s, i + 2)
        } else {
            i + 1
        }
    } else if c == '"' {
        if closing_quote(s, i) < s.len() {
            closing_quote(s, i) + 1
        } else {
            closing_quote(s, i)
        }
    } else if digit(c) {
        i + number_run(s, i)
    } else if alpha(c) {
        i + 1 + word_run(s, i + 1)
    } else {
        i + 1
    }
}

/// A run of digits ends within the text.
pub proof fn lemma_digit_run_bound(s: Seq<char>, i: int)
    requires
        0 <= i <= s.len(),
    ensures
        i + digit_run(s, i) <= s.len(),
    decreases s.len() - i,
{
    if i < s.len() && digit(s[i]) {
        lemma_digit_run_bound(s, i + 1);
    }
}

/// A run of name characters ends within the text.
pub proof fn lemma_word_run_bound(s: Seq<char>, i: int)
    requires
        0 <= i <= s.len(),
    ensures
        i + word_run(s, i) <= s.len(),
    decreases s.len() - i,
{
    if i < s.len() && word_char(s[i]) {
        lemma_word_run_bound(s, i + 1);
    }
}

/// A run up to a stop character ends within the text, and at the stop
/// character where it ends before the end.
pub proof fn lemma_run_until_bound(s: Seq<char>, i: int, stop: char)
    requires
        0 <= i <= s.len(),
    ensures
        i + run_until(s, i, stop) <= s.len(),
        i + run_until(s, i, stop) < s.len() ==> s[i + run_until(s, i, stop)] == stop,
    decreases s.len() - i,
{
    if i < s.len() && s[i] != stop {
        lemma_run_until_bound(s, i + 1, stop);
    }
}

/// A block comment ends within the text.
pub proof fn lemma_comment_run_bound(s: Seq<char>, i: int)
    requires
        0 <= i <= s.len(),
    ensures
        i + comment_run(s, i) <= s.len(),
    decreases s.len() - i,
{
    if i < s.len() && !comment_close_at(s, i) {
        lemma_comment_run_bound(s, i + 1);
    }
}

/// Forward progress: the lexeme that starts at an offset within the text
/// ends behind that offset and within the text.
pub proof fn lemma_lexeme_end_bounds(s: Seq<char>, i: int)
    requires
        0 <= i < s.len(),
    ensures
        i < lexeme_end(s, i) <= s.len(),
{
    let c = s[i];
    if operator_char(c) {
    } else if c == '/' {
        if followed_by(s, i, '/') {
            lemma_run_until_bound(s, i + 2, '\n');
        } else if followed_by(s, i, '*') {
            lemma_comment_run_bound(s, i + 2);
        }
    } else if c == '"' {
        lemma_run_until_bound(s, i + 1, '"');
    } else if digit(c) {
        lemma_digit_run_bound(s, i + 1);
        let point = i + 1 + digit_run(s, i + 1);
        if point + 1 < s.len() {
            lemma_digit_run_bound(s, point + 1);
        }
    } else if alpha(c) {
        lemma_word_run_bound(s, i + 1);
    }
}

/// What one lexeme gives: a token, an error, or nothing.
pub enum Lexeme {
    /// A token of this kind with this payload.
    Token(TokenType, Option<LiteralView>),
    /// An error with this message.
    Error(Seq<char>),
    /// Blank space or a comment.
    Nothing,
}

/// The message for a character that starts no lexeme.
pub open spec fn unknown_character_message(c: char) -> Seq<char> {
    "Unknown character '"@.push(c).push('\'')
}

/// The message for a string that is still open at the end of the text.
pub open spec fn unterminated_string_message() -> Seq<char> {
    "Unterminated string."@
}

/// The message for a numeral whose value cannot be computed.
pub open spec fn malformed_number_message(numeral: Seq<char>) -> Seq<char> {
    ("Failed to parse number "@ + numeral).push('.')
}

/// The kind of the word `w`: its keyword kind, else `Identifier`.
pub open spec fn word_kind(w: Seq<char>) -> TokenType {
    match keyword_kind(w) {
        Some(kind) => kind,
        None => TokenType::Identifier,
    }
}

/// What the lexeme that starts at offset `i` gives.
pub open spec fn lexeme_at(s: Seq<char>, i: int) -> Lexeme {
    let c = s[i];
    let end = lexeme_end(s, i);
    if punctuation_kind(c) is Some {
        Lexeme::Token(punctuation_kind(c)->0, None)
    } else if operator_char(c) {
        Lexeme::Token(operator_kind(c, followed_by(s, i, '=')), None)
    } else if c == '/' {
        if followed_by(s, i, '/') || followed_by(s, i, '*') {
            Lexeme::Nothing
        } else {
            Lexeme::Token(TokenType::Slash, None)
        }
    } else if blank(c) {
        Lexeme::Nothing
    } else if c == '"' {
        if closing_quote(s, i) < s.len() {
            Lexeme::Token(
                TokenType::String,
                Some(LiteralView::String(s.subrange(i + 1, closing_quote(s, i)))),
            )
        } else {
            Lexeme::Error(unterminated_string_message())
        }
    } else if digit(c) {
        Lexeme::Token(TokenType::Number, Some(LiteralView::Number(s.subrange(i, end))))
    } else if alpha(c) {
        Lexeme::Token(
            word_kind(s.subrange(i, end)),
            Some(LiteralView::String(s.subrange(i, end))),
        )
    } else {
        Lexeme::Error(unknown_character_message(c))
    }
}

/// The end-of-input token of the text `s`: on the last line, one column past
/// the last one.
pub open spec fn eof_token(s: Seq<char>) -> TokenView {
    TokenView {
        token_type: TokenType::Eof,
        literal: None,
        line: line_at(s, s.len() as int),
        character: column_at(s, s.len() as int) + 1,
    }
}

/// The token with the given kind and payload whose last character stands
/// just before offset `end`.
pub open spec fn token_ending_at(
    s: Seq<char>,
    end: int,
    token_type: TokenType,
    literal: Option<LiteralView>,
) -> TokenView {
    TokenView { token_type, literal, line: line_at(s, end), character: column_at(s, end) }
}

/// The error with the given message met when the cursor stood at offset `end`.
pub open spec fn error_at(s: Seq<char>, end: int, message: Seq<char>) -> ErrorView {
    ErrorView {
        location: Seq::empty(),
        line: line_at(s, end),
        character: column_at(s, end),
        message,
    }
}

/// The tokens of the text `s` from offset `i` on, the end-of-input token last.
pub open spec fn scan_tokens(s: Seq<char>, i: int) -> Seq<TokenView>
    decreases s.len() - i,
{
    if i < 0 || i >= s.len() {
        seq![eof_token(s)]
    } else {
        proof {
            lemma_lexeme_end_bounds(s, i);
        }
        let end = lexeme_end(s, i);
        match lexeme_at(s, i) {
            Lexeme::Token(token_type, literal) => seq![
                token_ending_at(s, end, token_type, literal),
            ] + scan_tokens(s, end),
            _ => scan_tokens(s, end),
        }
    }
}

/// The errors of the text `s` from offset `i` on, in the order in which they
/// are met.
pub open spec fn scan_errors(s: Seq<char>, i: int) -> Seq<ErrorView>
    decreases s.len() - i,
{
    if i < 0 || i >= s.len() {
        Seq::empty()
    } else {
        proof {
            lemma_lexeme_end_bounds(s, i);
        }
        let end = lexeme_end(s, i);
        match lexeme_at(s, i) {
            Lexeme::Error(message) => seq![error_at(s, end, message)] + scan_errors(s, end),
            _ => scan_errors(s, end),
        }
    }
}

} // verus!
