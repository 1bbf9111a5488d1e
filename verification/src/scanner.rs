//! The scanner: a cursor over the characters of a text that produces the
//! text's tokens and collects its errors.

use crate::grammar::{
    closing_quote, column_at, comment_run, digit_run, error_at, lemma_lexeme_end_bounds,
    lexeme_at, lexeme_end, line_at, malformed_number_message, run_until, scan_errors,
    scan_tokens, token_ending_at, word_run, Lexeme,
};
pub use crate::render::pretty;
use crate::text::{alpha, chars_of, digit, is_alpha, is_digit, text_of};
use crate::theorems::{theorem_ends_in_one_eof, theorem_lines_never_decrease};
use crate::token::{error_views, token_views, ErrorView, ScannerError, TokenType};
pub use crate::token::{LiteralValue, Token};
use vstd::prelude::*;
use vstd::slice::slice_subrange;
use vstd::string::StringExecFns;

verus! {

/// The character of `s` at offset `i`, or the null character where `i` is
/// not an offset of `s`.
pub open spec fn char_at(s: Seq<char>, i: int) -> char {
    if 0 <= i < s.len() {
        s[i]
    } else {
        '\0'
    }
}

/// The cursor and what it has collected.
struct Scanner {
    errors: Vec<ScannerError>,
    source: Vec<char>,
    /// The offset of the first character of the lexeme being scanned.
    start: usize,
    /// The offset of the next character to consume.
    offset: usize,
    line: usize,
    character: usize,
}

impl Scanner {
    /// The cursor lies within the text, and its line and column are those of
    /// the text consumed so far.
    spec fn wf(&self) -> bool {
        &&& self.source@.len() < usize::MAX
        &&& self.start <= self.offset <= self.source@.len()
        &&& self.line == line_at(self.source@, self.offset as int)
        &&& self.character == column_at(self.source@, self.offset as int)
        &&& self.line <= self.offset + 1
        &&& self.character <= self.offset
    }

    /// `after` differs from `self` only in the cursor having moved to `offset`.
    spec fn moved_to(&self, after: Scanner, offset: int) -> bool {
        &&& after.wf()
        &&& after.source == self.source
        &&& after.start == self.start
        &&& after.errors == self.errors
        &&& after.offset == offset
    }

    /// `after` and `token` are what scanning the one lexeme at `self.start`
    /// leaves and gives: the cursor stands at the lexeme's end, and the token
    /// is returned, or the error recorded, that the grammar names.
    spec fn lexed(&self, after: Scanner, token: Option<Token>) -> bool {
        let s = self.source@;
        let end = lexeme_end(s, self.start as int);
        &&& after.wf()
        &&& after.source == self.source
        &&& after.start == self.start
        &&& after.offset == end
        &&& match lexeme_at(s, self.start as int) {
            Lexeme::Token(token_type, literal) => {
                &&& token is Some
                &&& token->0@ == token_ending_at(s, end, token_type, literal)
                &&& after.errors == self.errors
            },
            Lexeme::Error(message) => {
                &&& token is None
                &&& error_views(after.errors@) == error_views(self.errors@).push(
                    error_at(s, end, message),
                )
            },
            Lexeme::Nothing => {
                &&& token is None
                &&& after.errors == self.errors
            },
        }
    }

    fn new(source: &str) -> (scanner: Scanner)
        requires
            source@.len() < usize::MAX,
        ensures
            scanner.wf(),
            scanner.source@ == source@,
            scanner.start == 0,
            scanner.offset == 0,
            scanner.errors@.len() == 0,
    {
        Scanner {
            errors: Vec::new(),
            source: chars_of(source),
            start: 0,
            offset: 0,
            line: 1,
            character: 0,
        }
    }

    fn is_at_end(&self) -> (at_end: bool)
        ensures
            at_end == (self.offset >= self.source@.len()),
    {
        self.offset >= self.source.len()
    }

    fn peek(&self) -> (c: char)
        ensures
            c == char_at(self.source@, self.offset as int),
    {
        if self.is_at_end() {
            '\0'
        } else {
            self.source[self.offset]
        }
    }

    fn peek_next(&self) -> (c: char)
        requires
            self.wf(),
        ensures
            c == char_at(self.source@, self.offset + 1),
    {
        if self.offset + 1 >= self.source.len() {
            '\0'
        } else {
            self.source[self.offset + 1]
        }
    }

    /// Consumes one character, if one is left, and returns it; at the end of
    /// the text it returns the null character and changes nothing. A newline
    /// starts a new line at column 0; any other character adds one column.
    fn advance(&mut self) -> (c: char)
        requires
            old(self).wf(),
        ensures
            c == char_at(old(self).source@, old(self).offset as int),
            old(self).offset < old(self).source@.len() ==> old(self).moved_to(
                *final(self),
                old(self).offset + 1,
            ),
            old(self).offset >= old(self).source@.len() ==> *final(self) == *old(self),
    {
        if self.is_at_end() {
            return '\0';
        }
        let result = self.source[self.offset];
        self.offset += 1;
        if result == '\n' {
            self.line += 1;
            self.character = 0;
        } else {
            self.character += 1;
        }
        result
    }

    /// Consumes the next character where it is `expected`, and says whether
    /// it did.
    fn check(&mut self, expected: char) -> (found: bool)
        requires
            old(self).wf(),
        ensures
            found == (old(self).offset < old(self).source@.len() && old(self).source@[old(
                self,
            ).offset as int] == expected),
            found ==> old(self).moved_to(*final(self), old(self).offset + 1),
            !found ==> *final(self) == *old(self),
    {
        if self.is_at_end() {
            return false;
        }
        if self.source[self.offset] != expected {
            return false;
        }
        self.advance();
        true
    }

    /// A token of the given kind, without payload, at the cursor's position.
    fn token(&self, token_type: TokenType) -> (token: Option<Token>)
        ensures
            token == Some(
                Token { token_type, literal: None, line: self.line, character: self.character },
            ),
    {
        Some(Token::token(token_type, self.line, self.character))
    }

    /// Maximal munch for an operator that `expected` makes longer: the long
    /// kind where `expected` follows, which is then consumed, else the short
    /// kind.
    fn match_token_or(
        &mut self,
        expected: char,
        token_type_on_match: TokenType,
        or: TokenType,
    ) -> (token: Option<Token>)
        requires
            old(self).wf(),
        ensures
            ({
                let found = old(self).offset < old(self).source@.len() && old(self).source@[old(
                    self,
                ).offset as int] == expected;
                let after = *final(self);
                &&& found ==> old(self).moved_to(after, old(self).offset + 1)
                &&& !found ==> after == *old(self)
                &&& token == Some(
                    Token {
                        token_type: if found { token_type_on_match } else { or },
                        literal: None,
                        line: after.line,
                        character: after.character,
                    },
                )
            }),
    {
        if self.check(expected) {
            self.token(token_type_on_match)
        } else {
            self.token(or)
        }
    }

    /// Records an error at the cursor's position.
    fn error(&mut self, location: &str, message: &str)
        ensures
            final(self).source == old(self).source,
            final(self).start == old(self).start,
            final(self).offset == old(self).offset,
            final(self).line == old(self).line,
            final(self).character == old(self).character,
            error_views(final(self).errors@) == error_views(old(self).errors@).push(
                ErrorView {
                    location: location@,
                    line: old(self).line as nat,
                    character: old(self).character as nat,
                    message: message@,
                },
            ),
    {
        let error = ScannerError {
            location: location.to_owned(),
            line: self.line,
            character: self.character,
            message: message.to_owned(),
        };
        self.errors.push(error);
        proof {
            assert(error_views(self.errors@) =~= error_views(old(self).errors@).push(error@));
        }
    }

    /// Scans the one lexeme that starts at the cursor, and returns its token
    /// where it gives one.
    fn scan_token(&mut self) -> (token: Option<Token>)
        requires
            old(self).wf(),
            old(self).start == old(self).offset,
            old(self).offset < old(self).source@.len(),
        ensures
            old(self).lexed(*final(self), token),
    {
        let ghost s = self.source@;
        let c = self.advance();
        if c == '(' {
            self.token(TokenType::LeftParen)
        } else if c == ')' {
            self.token(TokenType::RightParen)
        } else if c == '{' {
            self.token(TokenType::LeftBrace)
        } else if c == '}' {
            self.token(TokenType::RightBrace)
        } else if c == ',' {
            self.token(TokenType::Comma)
        } else if c == '.' {
            self.token(TokenType::Dot)
        } else if c == '-' {
            self.token(TokenType::Minus)
        } else if c == '+' {
            self.token(TokenType::Plus)
        } else if c == ';' {
            self.token(TokenType::Semicolon)
        } else if c == '*' {
            self.token(TokenType::Star)
        } else if c == '!' {
            self.match_token_or('=', TokenType::BangEqual, TokenType::Bang)
        } else if c == '=' {
            self.match_token_or('=', TokenType::EqualEqual, TokenType::Equal)
        } else if c == '<' {
            self.match_token_or('=', TokenType::LessEqual, TokenType::Less)
        } else if c == '>' {
            self.match_token_or('=', TokenType::GreaterEqual, TokenType::Greater)
        } else if c == '/' {
            if self.check('/') {
                let ghost end = self.start + 2 + run_until(s, self.start + 2, '\n');
                while self.peek() != '\n' && !self.is_at_end()
                    invariant
                        old(self).moved_to(*self, self.offset as int),
                        s == self.source@,
                        self.offset + run_until(s, self.offset as int, '\n') == end,
                    decreases s.len() - self.offset,
                {
                    self.advance();
                }
                None
            } else if self.check('*') {
                let ghost end = self.start + 2 + comment_run(s, self.start + 2);
                let mut open = true;
                while open && !self.is_at_end()
                    invariant
                        old(self).moved_to(*self, self.offset as int),
                        s == self.source@,
                        open ==> self.offset + comment_run(s, self.offset as int) == end,
                        !open ==> self.offset == end,
                    decreases s.len() - self.offset,
                {
                    if self.peek() == '*' && self.peek_next() == '/' {
                        self.advance();
                        self.advance();
                        open = false;
                    } else {
                        self.advance();
                    }
                }
                None
            } else {
                self.token(TokenType::Slash)
            }
        } else if c == ' ' || c == '\r' || c == '\t' || c == '\n' {
            None
        } else if c == '"' {
            self.string()
        } else if is_digit(c) {
            self.number()
        } else if is_alpha(c) {
            self.identifier()
        } else {
            let mut message = "Unknown character '".to_owned();
            message.push(c);
            message.push('\'');
            self.error("", message.as_str());
            proof {
                reveal_strlit("");
                assert(""@ =~= Seq::<char>::empty());
            }
            None
        }
    }

    /// Scans the whole text: the tokens, the end-of-input token last, and
    /// the errors in the order in which they were met.
    fn scan(self) -> (found: (Vec<Token>, Vec<ScannerError>))
        requires
            self.wf(),
            self.offset == 0,
            self.errors@.len() == 0,
        ensures
            token_views(found.0@) == scan_tokens(self.source@, 0),
            error_views(found.1@) == scan_errors(self.source@, 0),
    {
        let mut scanner = self;
        let ghost s = scanner.source@;
        let mut result: Vec<Token> = Vec::new();
        proof {
            assert(token_views(result@) + scan_tokens(s, 0) =~= scan_tokens(s, 0));
            assert(error_views(scanner.errors@) + scan_errors(s, 0) =~= scan_errors(s, 0));
        }
        while !scanner.is_at_end()
            invariant
                scanner.wf(),
                scanner.source@ == s,
                token_views(result@) + scan_tokens(s, scanner.offset as int) == scan_tokens(s, 0),
                error_views(scanner.errors@) + scan_errors(s, scanner.offset as int) == scan_errors(
                    s,
                    0,
                ),
            decreases s.len() - scanner.offset,
        {
            scanner.start = scanner.offset;
            let ghost i = scanner.offset as int;
            let ghost end = lexeme_end(s, i);
            let ghost tokens_before = token_views(result@);
            let ghost errors_before = error_views(scanner.errors@);
            proof {
                lemma_lexeme_end_bounds(s, i);
            }
            match scanner.scan_token() {
                Some(token) => {
                    result.push(token);
                    proof {
                        assert(token_views(result@) =~= tokens_before.push(token@));
                        assert(tokens_before.push(token@) + scan_tokens(s, end) =~= tokens_before
                            + (seq![token@] + scan_tokens(s, end)));
                    }
                },
                None => {
                    proof {
                        match lexeme_at(s, i) {
                            Lexeme::Error(message) => {
                                let e = error_at(s, end, message);
                                assert(errors_before.push(e) + scan_errors(s, end)
                                    =~= errors_before + (seq![e] + scan_errors(s, end)));
                            },
                            _ => {},
                        }
                    }
                },
            }
        }
        result.push(Token::eof(scanner.line, scanner.character + 1));
        proof {
            let ghost before = token_views(result@.drop_last());
            assert(token_views(result@) =~= before + scan_tokens(s, s.len() as int));
        }
        (result, scanner.errors)
    }

    /// Scans the rest of a string literal whose opening quote has just been
    /// consumed. No escape sequence is known: the payload is the text
    /// between the quotes as it stands. A string that is still open at the
    /// end of the text gives an error and no token.
    fn string(&mut self) -> (token: Option<Token>)
        requires
            old(self).wf(),
            old(self).offset == old(self).start + 1,
            old(self).source@[old(self).start as int] == '"',
        ensures
            old(self).lexed(*final(self), token),
    {
        let ghost s = self.source@;
        let ghost close = closing_quote(s, self.start as int);
        while self.peek() != '"' && !self.is_at_end()
            invariant
                old(self).moved_to(*self, self.offset as int),
                s == self.source@,
                self.offset > self.start,
                self.offset + run_until(s, self.offset as int, '"') == close,
            decreases s.len() - self.offset,
        {
            self.advance();
        }
        if self.is_at_end() {
            self.error("", "Unterminated string.");
            proof {
                reveal_strlit("");
                assert(""@ =~= Seq::<char>::empty());
            }
            return None;
        }
        self.advance();
        let text = text_of(slice_subrange(self.source.as_slice(), self.start + 1, self.offset - 1));
        Some(
            Token::new(
                TokenType::String,
                Some(LiteralValue::String(text)),
                self.line,
                self.character,
            ),
        )
    }

    /// Scans the rest of a number literal whose first digit has just been
    /// consumed. The payload is the numeral as written.
    fn number(&mut self) -> (token: Option<Token>)
        requires
            old(self).wf(),
            old(self).offset == old(self).start + 1,
            digit(old(self).source@[old(self).start as int]),
        ensures
            old(self).lexed(*final(self), token),
    {
        let ghost s = self.source@;
        let ghost point = self.start + 1 + digit_run(s, self.start + 1);
        while is_digit(self.peek())
            invariant
                old(self).moved_to(*self, self.offset as int),
                s == self.source@,
                self.offset > self.start,
                self.offset + digit_run(s, self.offset as int) == point,
            decreases s.len() - self.offset,
        {
            self.advance();
        }
        if self.peek() == '.' && is_digit(self.peek_next()) {
            self.advance();
            while is_digit(self.peek())
                invariant
                    old(self).moved_to(*self, self.offset as int),
                    s == self.source@,
                    self.offset > self.start,
                    self.offset + digit_run(s, self.offset as int) == point + 1 + digit_run(
                        s,
                        point + 1,
                    ),
                decreases s.len() - self.offset,
            {
                self.advance();
            }
        }
        let text = text_of(slice_subrange(self.source.as_slice(), self.start, self.offset));
        Some(
            Token::new(
                TokenType::Number,
                Some(LiteralValue::Number(text)),
                self.line,
                self.character,
            ),
        )
    }

    /// Scans the rest of a name whose first letter has just been consumed:
    /// a keyword where the name spells one, else an identifier. The payload
    /// is the name.
    fn identifier(&mut self) -> (token: Option<Token>)
        requires
            old(self).wf(),
            old(self).offset == old(self).start + 1,
            alpha(old(self).source@[old(self).start as int]),
        ensures
            old(self).lexed(*final(self), token),
    {
        let ghost s = self.source@;
        let ghost end = self.start + 1 + word_run(s, self.start + 1);
        while is_alpha(self.peek()) || is_digit(self.peek()) || self.peek() == '_'
            invariant
                old(self).moved_to(*self, self.offset as int),
                s == self.source@,
                self.offset > self.start,
                self.offset + word_run(s, self.offset as int) == end,
            decreases s.len() - self.offset,
        {
            self.advance();
        }
        let word = slice_subrange(self.source.as_slice(), self.start, self.offset);
        let token_type = match TokenType::keyword_of_word(word) {
            Some(keyword) => keyword,
            None => TokenType::Identifier,
        };
        Some(
            Token::new(
                token_type,
                Some(LiteralValue::String(text_of(word))),
                self.line,
                self.character,
            ),
        )
    }
}

/// The error for a number literal whose value cannot be computed from its
/// numeral. The scanner itself never meets it: every numeral it finds is
/// well formed. It is for callers that turn numerals into values.
pub fn malformed_number(numeral: &str, line: usize, character: usize) -> (error: ScannerError)
    ensures
        error@ == (ErrorView {
            location: Seq::empty(),
            line: line as nat,
            character: character as nat,
            message: malformed_number_message(numeral@),
        }),
{
    let mut message = "Failed to parse number ".to_owned();
    message.append(numeral);
    message.push('.');
    ScannerError { location: String::new(), line, character, message }
}

/// Scans `source`: its tokens, which end in exactly one end-of-input token,
/// and its lexical errors in the order in which they were met. No error
/// stops the scan. A block comment that is never closed runs to the end of
/// the text and gives no error. The text must be short enough for the
/// position one past its end to fit in a `usize`.
pub fn scan(source: &str) -> (found: (Vec<Token>, Vec<ScannerError>))
    requires
        source@.len() < usize::MAX,
    ensures
        token_views(found.0@) == scan_tokens(source@, 0),
        error_views(found.1@) == scan_errors(source@, 0),
        found.0@.len() >= 1,
        found.0@.last().token_type == TokenType::Eof,
        forall|k: int| 0 <= k < found.0@.len() - 1 ==> found.0@[k].token_type != TokenType::Eof,
        forall|a: int, b: int|
            0 <= a <= b < found.0@.len() ==> found.0@[a].line <= found.0@[b].line,
{
    let scanner = Scanner::new(source);
    let found = scanner.scan();
    proof {
        let views = token_views(found.0@);
        theorem_ends_in_one_eof(source@);
        theorem_lines_never_decrease(source@);
        assert(views.len() == found.0@.len());
        assert(views.last() == found.0@.last()@);
        assert forall|k: int| 0 <= k < found.0@.len() - 1 implies found.0@[k].token_type
            != TokenType::Eof by {
            assert(views[k] == found.0@[k]@);
        }
        assert forall|a: int, b: int| 0 <= a <= b < found.0@.len() implies found.0@[a].line
            <= found.0@[b].line by {
            assert(views[a] == found.0@[a]@);
            assert(views[b] == found.0@[b]@);
        }
    }
    found
}

/// As `scan`, for a text of any length: `None` where the text is so long
/// that its positions cannot be counted.
pub fn try_scan(source: &str) -> (found: Option<(Vec<Token>, Vec<ScannerError>)>)
    ensures
        found is Some <==> source@.len() < usize::MAX,
        match found {
            Some((tokens, errors)) => {
                &&& token_views(tokens@) == scan_tokens(source@, 0)
                &&& error_views(errors@) == scan_errors(source@, 0)
            },
            None => true,
        },
{
    if source.unicode_len() < usize::MAX {
        Some(scan(source))
    } else {
        None
    }
}

} // verus!
