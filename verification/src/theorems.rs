//! What holds of the tokens of every text.

use crate::grammar::{
    column_at, digit_run, eof_token, lemma_digit_run_bound, lemma_lexeme_end_bounds, lexeme_at,
    lexeme_end, line_at, number_run, scan_errors, scan_tokens, token_ending_at, Lexeme,
};
use crate::text::digit;
use crate::token::{LiteralView, TokenType, TokenView};
use vstd::prelude::*;

verus! {

/// The line of the cursor never goes back as more of the text is consumed.
pub proof fn lemma_line_grows(s: Seq<char>, a: int, b: int)
    requires
        a <= b,
    ensures
        line_at(s, a) <= line_at(s, b),
    decreases b - a,
{
    if a < b {
        lemma_line_grows(s, a, b - 1);
    }
}

/// The column restarts at every newline: where a newline stands at offset
/// `j`, the column after `n > j` characters counts at most the characters
/// behind that newline.
pub proof fn lemma_column_restarts(s: Seq<char>, j: int, n: int)
    requires
        0 <= j < n,
        s[j] == '\n',
    ensures
        column_at(s, n) <= n - j - 1,
    decreases n - j,
{
    if n - 1 > j && s[n - 1] != '\n' {
        lemma_column_restarts(s, j, n - 1);
    }
}

/// A token that spans a newline stands at a small column: where a newline
/// stands at offset `j` within the lexeme that starts at offset `i`, the
/// token's column counts only the characters of the lexeme behind that
/// newline.
pub proof fn theorem_column_restarts_within_token(s: Seq<char>, i: int, j: int)
    requires
        0 <= i < s.len(),
        i <= j < lexeme_end(s, i),
        s[j] == '\n',
        lexeme_at(s, i) is Token,
    ensures
        token_ending_at(
            s,
            lexeme_end(s, i),
            lexeme_at(s, i)->Token_0,
            lexeme_at(s, i)->Token_1,
        ).character <= lexeme_end(s, i) - j - 1,
{
    lemma_column_restarts(s, j, lexeme_end(s, i));
}

/// No lexeme gives an end-of-input token: that token marks the end of the
/// text and nothing else.
pub proof fn lemma_lexeme_is_not_eof(s: Seq<char>, i: int)
    ensures
        match lexeme_at(s, i) {
            Lexeme::Token(token_type, _) => token_type != TokenType::Eof,
            _ => true,
        },
{
}

/// Whether the lines of `tokens` never decrease from one token to the next.
pub open spec fn lines_never_decrease(tokens: Seq<TokenView>) -> bool {
    forall|a: int, b: int| 0 <= a <= b < tokens.len() ==> tokens[a].line <= tokens[b].line
}

/// Whether `tokens` holds the end-of-input token of `s` as its last element
/// and no end-of-input token before it.
pub open spec fn ends_in_one_eof(s: Seq<char>, tokens: Seq<TokenView>) -> bool {
    &&& tokens.len() >= 1
    &&& tokens.last() == eof_token(s)
    &&& forall|k: int| 0 <= k < tokens.len() - 1 ==> tokens[k].token_type != TokenType::Eof
}

/// Whether `token` stands where the cursor stands after some non-empty
/// prefix of `s`.
pub open spec fn positioned(s: Seq<char>, token: TokenView) -> bool {
    exists|end: int|
        0 < end <= s.len() && token.line == #[trigger] line_at(s, end) && token.character
            == column_at(s, end)
}

/// The tokens from any offset on are never empty, end in the one
/// end-of-input token, lie on lines from that of the offset on, and their
/// lines never decrease. Each but the last stands where the cursor stood
/// when the token's last character had been consumed.
pub proof fn lemma_tokens_from(s: Seq<char>, i: int)
    requires
        0 <= i <= s.len(),
    ensures
        ends_in_one_eof(s, scan_tokens(s, i)),
        lines_never_decrease(scan_tokens(s, i)),
        forall|k: int|
            0 <= k < scan_tokens(s, i).len() ==> line_at(s, i) <= (#[trigger] scan_tokens(
                s,
                i,
            )[k]).line,
        forall|k: int|
            0 <= k < scan_tokens(s, i).len() - 1 ==> positioned(
                s,
                #[trigger] scan_tokens(s, i)[k],
            ),
    decreases s.len() - i,
{
    let tokens = scan_tokens(s, i);
    if i < s.len() {
        let end = lexeme_end(s, i);
        let rest = scan_tokens(s, end);
        lemma_lexeme_end_bounds(s, i);
        lemma_tokens_from(s, end);
        lemma_line_grows(s, i, end);
        lemma_lexeme_is_not_eof(s, i);
        match lexeme_at(s, i) {
            Lexeme::Token(token_type, literal) => {
                assert(tokens.len() == rest.len() + 1);
                assert(forall|k: int| 1 <= k < tokens.len() ==> tokens[k] == rest[k - 1]);
                assert(tokens[0].line == line_at(s, end));
                assert(tokens.last() == rest.last());
                assert(positioned(s, tokens[0]));
            },
            _ => {},
        }
    }
}

/// The token sequence of every text is non-empty, and its last token, and
/// none before it, is the end-of-input token.
pub proof fn theorem_ends_in_one_eof(s: Seq<char>)
    ensures
        ends_in_one_eof(s, scan_tokens(s, 0)),
{
    lemma_tokens_from(s, 0);
}

/// Line numbers never decrease across the token sequence of a text.
pub proof fn theorem_lines_never_decrease(s: Seq<char>)
    ensures
        lines_never_decrease(scan_tokens(s, 0)),
{
    lemma_tokens_from(s, 0);
}

/// Every token but the end-of-input token stands at the position that the
/// cursor has after some non-empty prefix of the text: its line is one more
/// than the number of newlines in that prefix, and its column the number of
/// characters behind the last of them.
pub proof fn theorem_tokens_are_positioned(s: Seq<char>)
    ensures
        forall|k: int|
            0 <= k < scan_tokens(s, 0).len() - 1 ==> positioned(
                s,
                #[trigger] scan_tokens(s, 0)[k],
            ),
{
    lemma_tokens_from(s, 0);
}

/// Every lexeme consumes at least one character and gives at most one token
/// or one error, so from any offset on the tokens before the end-of-input
/// token and the errors together are no more than the characters left.
pub proof fn lemma_counts_from(s: Seq<char>, i: int)
    requires
        0 <= i <= s.len(),
    ensures
        scan_tokens(s, i).len() - 1 + scan_errors(s, i).len() <= s.len() - i,
    decreases s.len() - i,
{
    if i < s.len() {
        lemma_lexeme_end_bounds(s, i);
        lemma_counts_from(s, lexeme_end(s, i));
    }
}

/// The output of a scan is bounded by its input: a text of `n` characters
/// has at most `n` tokens and errors together, besides the end-of-input
/// token.
pub proof fn theorem_output_is_bounded(s: Seq<char>)
    ensures
        scan_tokens(s, 0).len() - 1 + scan_errors(s, 0).len() <= s.len(),
{
    lemma_counts_from(s, 0);
}

/// Whether every character of `t` is an ASCII digit.
pub open spec fn all_digits(t: Seq<char>) -> bool {
    forall|k: int| 0 <= k < t.len() ==> digit(#[trigger] t[k])
}

/// Whether `t` is a decimal numeral: one or more digits, which a point and
/// one or more digits may follow.
pub open spec fn numeral(t: Seq<char>) -> bool {
    ||| t.len() >= 1 && all_digits(t)
    ||| exists|p: int|
        1 <= p < t.len() - 1 && #[trigger] t[p] == '.' && all_digits(t.take(p)) && all_digits(
            t.skip(p + 1),
        )
}

/// A run of digits holds digits only.
pub proof fn lemma_digit_run_holds_digits(s: Seq<char>, i: int)
    requires
        0 <= i <= s.len(),
    ensures
        all_digits(s.subrange(i, i + digit_run(s, i))),
    decreases s.len() - i,
{
    lemma_digit_run_bound(s, i);
    if i < s.len() && digit(s[i]) {
        lemma_digit_run_holds_digits(s, i + 1);
        lemma_digit_run_bound(s, i + 1);
        let here = s.subrange(i, i + digit_run(s, i));
        let behind = s.subrange(i + 1, i + 1 + digit_run(s, i + 1));
        assert forall|k: int| 0 <= k < here.len() implies digit(#[trigger] here[k]) by {
            if k > 0 {
                assert(here[k] == behind[k - 1]);
            }
        }
    }
}

/// The payload of every number token is a decimal numeral, so its value can
/// always be computed.
pub proof fn theorem_number_is_numeral(s: Seq<char>, i: int)
    requires
        0 <= i < s.len(),
        digit(s[i]),
    ensures
        lexeme_at(s, i) == Lexeme::Token(
            TokenType::Number,
            Some(LiteralView::Number(s.subrange(i, lexeme_end(s, i)))),
        ),
        numeral(s.subrange(i, lexeme_end(s, i))),
{
    lemma_lexeme_end_bounds(s, i);
    lemma_digit_run_holds_digits(s, i + 1);
    lemma_digit_run_bound(s, i + 1);
    let end = lexeme_end(s, i);
    let t = s.subrange(i, end);
    let point = i + 1 + digit_run(s, i + 1);
    let whole = s.subrange(i + 1, point);
    assert(end == i + number_run(s, i));
    if end == point {
        assert forall|k: int| 0 <= k < t.len() implies digit(#[trigger] t[k]) by {
            if k > 0 {
                assert(t[k] == whole[k - 1]);
            }
        }
    } else {
        lemma_digit_run_holds_digits(s, point + 1);
        lemma_digit_run_bound(s, point + 1);
        let fraction = s.subrange(point + 1, end);
        let p = point - i;
        assert(t[p] == '.');
        assert forall|k: int| 0 <= k < t.take(p).len() implies digit(#[trigger] t.take(p)[k]) by {
            if k > 0 {
                assert(t.take(p)[k] == whole[k - 1]);
            }
        }
        assert(t.skip(p + 1) =~= fraction);
        assert(fraction.len() >= 1) by {
            assert(digit(s[point + 1]));
        }
    }
}

} // verus!
