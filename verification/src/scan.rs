//! The mathematical model of the scan.
//!
//! Every function here is a pure function of the input character sequence,
//! so the scanner's contracts pin each token — and the whole token
//! sequence — down as a function of the input alone.

use vstd::prelude::*;
use crate::token::{TokenTypeView, TokenView};

verus! {

// ---------------------------------------------------------------------------
// Character classes
// ---------------------------------------------------------------------------

/// What `char::is_whitespace` returns: whether the character has the Unicode
/// `White_Space` property.  The full table is not restated here; the scan
/// model treats the class as opaque.
pub uninterp spec fn is_whitespace_char(c: char) -> bool;

/// What `char::is_alphabetic` returns: whether the character has the Unicode
/// `Alphabetic` property.
pub uninterp spec fn is_alphabetic_char(c: char) -> bool;

/// What `char::is_alphanumeric` returns: whether the character is alphabetic
/// or a numeric character.
pub uninterp spec fn is_alphanumeric_char(c: char) -> bool;

/// Relies on `char::is_whitespace`; the result depends on the character alone.
#[verifier::external_body]
pub fn char_is_whitespace(c: char) -> (r: bool)
    ensures
        r == is_whitespace_char(c),
{
    c.is_whitespace()
}

/// Relies on `char::is_alphabetic`; the result depends on the character alone.
#[verifier::external_body]
pub fn char_is_alphabetic(c: char) -> (r: bool)
    ensures
        r == is_alphabetic_char(c),
{
    c.is_alphabetic()
}

/// Relies on `char::is_alphanumeric`; the result depends on the character alone.
#[verifier::external_body]
pub fn char_is_alphanumeric(c: char) -> (r: bool)
    ensures
        r == is_alphanumeric_char(c),
{
    c.is_alphanumeric()
}

/// An ASCII decimal digit, `'0'` through `'9'`.
pub open spec fn is_digit_char(c: char) -> bool {
    48 <= c as u32 && c as u32 <= 57
}

/// A decimal digit check, proved against `is_digit_char`.
pub fn char_is_digit(c: char) -> (r: bool)
    ensures
        r == is_digit_char(c),
{
    let u = c as u32;
    48 <= u && u <= 57
}

/// A character that may start an identifier: alphabetic or an underscore.
pub open spec fn is_identifier_start(c: char) -> bool {
    is_alphabetic_char(c) || c == '_'
}

/// A character that may continue an identifier: alphanumeric, an underscore
/// or a hyphen (so `font-size` is one identifier, though `-` cannot start one).
pub open spec fn is_identifier_continue(c: char) -> bool {
    is_alphanumeric_char(c) || c == '_' || c == '-'
}

/// The fixed keyword set.
pub open spec fn is_keyword(w: Seq<char>) -> bool {
    w == "def"@ || w == "header"@ || w == "body"@
}

// ---------------------------------------------------------------------------
// Source positions
// ---------------------------------------------------------------------------

/// The 1-based line number of the character at index `i`: one more than the
/// number of newlines among the first `i` characters.
pub open spec fn line_at(s: Seq<char>, i: int) -> int
    decreases i,
{
    if i <= 0 {
        1
    } else {
        line_at(s, i - 1) + if s[i - 1] == '\n' { 1int } else { 0int }
    }
}

/// The 1-based column of the character at index `i`: the count of characters
/// consumed since the last newline, plus one.
pub open spec fn col_at(s: Seq<char>, i: int) -> int
    decreases i,
{
    if i <= 0 {
        1
    } else if s[i - 1] == '\n' {
        1
    } else {
        col_at(s, i - 1) + 1
    }
}

/// Line and column are at least 1 and at most one past the index.
pub proof fn lemma_position_bounds(s: Seq<char>, i: int)
    requires
        0 <= i,
    ensures
        1 <= line_at(s, i) <= i + 1,
        1 <= col_at(s, i) <= i + 1,
    decreases i,
{
    if i > 0 {
        lemma_position_bounds(s, i - 1);
    }
}

// ---------------------------------------------------------------------------
// Insignificant input: whitespace and block comments
// ---------------------------------------------------------------------------

/// The index just past a block comment whose body starts at `i` (the cursor
/// standing just after the opening `/*`): two past the next `*/`, or the end
/// of the input if no closer is found.
pub open spec fn comment_end(s: Seq<char>, i: int) -> int
    decreases s.len() - i,
{
    if !(0 <= i < s.len()) {
        s.len() as int
    } else if i + 1 < s.len() && s[i] == '*' && s[i + 1] == '/' {
        i + 2
    } else {
        comment_end(s, i + 1)
    }
}

pub proof fn lemma_comment_end_bounds(s: Seq<char>, i: int)
    requires
        0 <= i <= s.len(),
    ensures
        i <= comment_end(s, i) <= s.len(),
    decreases s.len() - i,
{
    if 0 <= i < s.len() && !(i + 1 < s.len() && s[i] == '*' && s[i + 1] == '/') {
        lemma_comment_end_bounds(s, i + 1);
    }
}

/// The index of the first significant character at or after `i`: whitespace
/// runs and block comments are consumed, and an unterminated comment is
/// consumed silently through to the end of the input.
pub open spec fn skip_insignificant(s: Seq<char>, i: int) -> int
    decreases s.len() - i,
        via skip_insignificant_decreases
{
    if !(0 <= i < s.len()) {
        s.len() as int
    } else if is_whitespace_char(s[i]) {
        skip_insignificant(s, i + 1)
    } else if i + 1 < s.len() && s[i] == '/' && s[i + 1] == '*' {
        skip_insignificant(s, comment_end(s, i + 2))
    } else {
        i
    }
}

#[via_fn]
proof fn skip_insignificant_decreases(s: Seq<char>, i: int) {
    if 0 <= i < s.len() && !is_whitespace_char(s[i]) && i + 1 < s.len() && s[i] == '/' && s[i + 1]
        == '*' {
        lemma_comment_end_bounds(s, i + 2);
    }
}

pub proof fn lemma_skip_insignificant_bounds(s: Seq<char>, i: int)
    requires
        0 <= i <= s.len(),
    ensures
        i <= skip_insignificant(s, i) <= s.len(),
    decreases s.len() - i,
{
    if 0 <= i < s.len() {
        if is_whitespace_char(s[i]) {
            lemma_skip_insignificant_bounds(s, i + 1);
        } else if i + 1 < s.len() && s[i] == '/' && s[i + 1] == '*' {
            lemma_comment_end_bounds(s, i + 2);
            lemma_skip_insignificant_bounds(s, comment_end(s, i + 2));
        }
    }
}

// ---------------------------------------------------------------------------
// Token extents
// ---------------------------------------------------------------------------

/// The index just past the maximal run of identifier-continuation characters
/// starting at `i`.
pub open spec fn identifier_end(s: Seq<char>, i: int) -> int
    decreases s.len() - i,
{
    if 0 <= i < s.len() && is_identifier_continue(s[i]) {
        identifier_end(s, i + 1)
    } else {
        i
    }
}

pub proof fn lemma_identifier_end_bounds(s: Seq<char>, i: int)
    requires
        0 <= i <= s.len(),
    ensures
        i <= identifier_end(s, i) <= s.len(),
    decreases s.len() - i,
{
    if 0 <= i < s.len() && is_identifier_continue(s[i]) {
        lemma_identifier_end_bounds(s, i + 1);
    }
}

/// The index just past the maximal numeric run starting at `i`: decimal
/// digits, with at most one embedded decimal point.  A second `.` ends the
/// number and is not consumed.
pub open spec fn number_end(s: Seq<char>, i: int, seen_dot: bool) -> int
    decreases s.len() - i,
{
    if 0 <= i < s.len() && is_digit_char(s[i]) {
        number_end(s, i + 1, seen_dot)
    } else if 0 <= i < s.len() && s[i] == '.' && !seen_dot {
        number_end(s, i + 1, true)
    } else {
        i
    }
}

pub proof fn lemma_number_end_bounds(s: Seq<char>, i: int, seen_dot: bool)
    requires
        0 <= i <= s.len(),
    ensures
        i <= number_end(s, i, seen_dot) <= s.len(),
    decreases s.len() - i,
{
    if 0 <= i < s.len() && is_digit_char(s[i]) {
        lemma_number_end_bounds(s, i + 1, seen_dot);
    } else if 0 <= i < s.len() && s[i] == '.' && !seen_dot {
        lemma_number_end_bounds(s, i + 1, true);
    }
}

/// The index of the closing double-quote of a string literal whose content
/// starts at `i`, or the end of the input if the literal is unterminated.
pub open spec fn string_close(s: Seq<char>, i: int) -> int
    decreases s.len() - i,
{
    if !(0 <= i < s.len()) {
        s.len() as int
    } else if s[i] == '"' {
        i
    } else {
        string_close(s, i + 1)
    }
}

pub proof fn lemma_string_close_bounds(s: Seq<char>, i: int)
    requires
        0 <= i <= s.len(),
    ensures
        i <= string_close(s, i) <= s.len(),
    decreases s.len() - i,
{
    if 0 <= i < s.len() && s[i] != '"' {
        lemma_string_close_bounds(s, i + 1);
    }
}

// ---------------------------------------------------------------------------
// One token
// ---------------------------------------------------------------------------

/// One step of the scan: the token produced and the cursor index just past it.
#[verifier::ext_equal]
pub struct ScanStep {
    pub token: TokenView,
    pub end: int,
}

/// The category of a single-character token.
pub open spec fn one_char_type(c: char) -> TokenTypeView {
    if c == '=' {
        TokenTypeView::Equals
    } else if c == '!' {
        TokenTypeView::Not
    } else if c == '<' {
        TokenTypeView::LessThan
    } else if c == '>' {
        TokenTypeView::GreaterThan
    } else if c == ',' {
        TokenTypeView::Comma
    } else if c == ';' {
        TokenTypeView::Semicolon
    } else if c == '(' {
        TokenTypeView::LParen
    } else if c == ')' {
        TokenTypeView::RParen
    } else if c == '{' {
        TokenTypeView::LBrace
    } else if c == '}' {
        TokenTypeView::RBrace
    } else {
        TokenTypeView::Illegal(c)
    }
}

/// The category of a two-character operator `c` followed by `=`.
pub open spec fn two_char_type(c: char) -> TokenTypeView {
    if c == '=' {
        TokenTypeView::EqualsTo
    } else if c == '!' {
        TokenTypeView::NotEqualsTo
    } else if c == '<' {
        TokenTypeView::LessOrEqual
    } else {
        TokenTypeView::GreaterOrEqual
    }
}

/// Whether the character at `j` opens a two-character operator.
pub open spec fn starts_two_char_operator(s: Seq<char>, j: int) -> bool {
    (s[j] == '=' || s[j] == '!' || s[j] == '<' || s[j] == '>') && j + 1 < s.len() && s[j + 1] == '='
}

/// The token whose first character stands at `j`, which must be significant,
/// together with the index just past it.  The token's reported position is
/// that of its first character.
pub open spec fn token_at(s: Seq<char>, j: int) -> ScanStep
    recommends
        0 <= j < s.len(),
{
    let c = s[j];
    let line = line_at(s, j);
    let column = col_at(s, j);
    if is_identifier_start(c) {
        let end = identifier_end(s, j + 1);
        let w = s.subrange(j, end);
        ScanStep {
            token: TokenView {
                value: w,
                token_type: if is_keyword(w) {
                    TokenTypeView::Keyword(w)
                } else {
                    TokenTypeView::Identifier(w)
                },
                line,
                column,
            },
            end,
        }
    } else if is_digit_char(c) {
        let end = number_end(s, j, false);
        let w = s.subrange(j, end);
        ScanStep {
            token: TokenView { value: w, token_type: TokenTypeView::Number(w), line, column },
            end,
        }
    } else if c == '"' {
        let close = string_close(s, j + 1);
        let content = s.subrange(j + 1, close);
        let end = if close < s.len() {
            close + 1
        } else {
            close
        };
        ScanStep {
            token: TokenView {
                value: content,
                token_type: TokenTypeView::StringLiteral(content),
                line,
                column,
            },
            end,
        }
    } else if starts_two_char_operator(s, j) {
        ScanStep {
            token: TokenView {
                value: s.subrange(j, j + 2),
                token_type: two_char_type(c),
                line,
                column,
            },
            end: j + 2,
        }
    } else {
        ScanStep {
            token: TokenView {
                value: s.subrange(j, j + 1),
                token_type: one_char_type(c),
                line,
                column,
            },
            end: j + 1,
        }
    }
}

/// A token starting at a significant character consumes at least that
/// character and never reads past the end of the input, and is never the
/// end-of-input token.
pub proof fn lemma_token_at_advances(s: Seq<char>, j: int)
    requires
        0 <= j < s.len(),
    ensures
        j < token_at(s, j).end <= s.len(),
        !(token_at(s, j).token.token_type is EndOfInput),
{
    let c = s[j];
    if is_identifier_start(c) {
        lemma_identifier_end_bounds(s, j + 1);
    } else if is_digit_char(c) {
        lemma_number_end_bounds(s, j + 1, false);
        assert(number_end(s, j, false) == number_end(s, j + 1, false));
    } else if c == '"' {
        lemma_string_close_bounds(s, j + 1);
    }
}

/// The end-of-input token, stamped with the position of the cursor.
pub open spec fn end_of_input_token(s: Seq<char>, j: int) -> TokenView {
    TokenView {
        value: Seq::<char>::empty(),
        token_type: TokenTypeView::EndOfInput,
        line: line_at(s, j),
        column: col_at(s, j),
    }
}

/// One call of the scanner from cursor index `i`: skip insignificant input,
/// then produce either the end-of-input token or the token standing there.
pub open spec fn scan_step(s: Seq<char>, i: int) -> ScanStep
    recommends
        0 <= i <= s.len(),
{
    let j = skip_insignificant(s, i);
    if j >= s.len() {
        ScanStep { token: end_of_input_token(s, j), end: j }
    } else {
        token_at(s, j)
    }
}

/// A scan step lands within bounds; it stands still only at the end of the
/// input, and it yields the end-of-input token exactly when the cursor has
/// nothing significant left.
pub proof fn lemma_scan_step_bounds(s: Seq<char>, i: int)
    requires
        0 <= i <= s.len(),
    ensures
        i <= scan_step(s, i).end <= s.len(),
        scan_step(s, i).token.token_type is EndOfInput <==> skip_insignificant(s, i) == s.len(),
        !(scan_step(s, i).token.token_type is EndOfInput) ==> i < scan_step(s, i).end,
{
    lemma_skip_insignificant_bounds(s, i);
    let j = skip_insignificant(s, i);
    if j < s.len() {
        lemma_token_at_advances(s, j);
    }
}

// ---------------------------------------------------------------------------
// The whole token sequence
// ---------------------------------------------------------------------------

/// The sequence of tokens produced from cursor index `i` to the end of the
/// input, including the terminal end-of-input token.
pub open spec fn spec_tokens(s: Seq<char>, i: int) -> Seq<TokenView>
    decreases s.len() - i,
        via spec_tokens_decreases
{
    if !(0 <= i <= s.len()) {
        Seq::<TokenView>::empty()
    } else {
        let step = scan_step(s, i);
        if step.token.token_type is EndOfInput {
            seq![step.token]
        } else {
            seq![step.token] + spec_tokens(s, step.end)
        }
    }
}

#[via_fn]
proof fn spec_tokens_decreases(s: Seq<char>, i: int) {
    if 0 <= i <= s.len() {
        lemma_scan_step_bounds(s, i);
    }
}

/// Law: scanning from any cursor position yields at least one token; the
/// last one is `EndOfInput`; and no earlier one is — so the terminal token
/// appears exactly once, as the final element.
pub proof fn lemma_terminal_end_of_input(s: Seq<char>, i: int)
    requires
        0 <= i <= s.len(),
    ensures
        spec_tokens(s, i).len() >= 1,
        spec_tokens(s, i).last().token_type is EndOfInput,
        forall|k: int|
            0 <= k < spec_tokens(s, i).len() - 1 ==> !(spec_tokens(s, i)[k].token_type
                is EndOfInput),
    decreases s.len() - i,
{
    let step = scan_step(s, i);
    lemma_scan_step_bounds(s, i);
    if !(step.token.token_type is EndOfInput) {
        lemma_terminal_end_of_input(s, step.end);
        let rest = spec_tokens(s, step.end);
        let whole = spec_tokens(s, i);
        assert(whole == seq![step.token] + rest);
        assert(whole.last() == rest.last());
        assert forall|k: int| 0 <= k < whole.len() - 1 implies !(whole[k].token_type
            is EndOfInput) by {
            if k > 0 {
                assert(whole[k] == rest[k - 1]);
            }
        }
    }
}

/// The length of input attributed by the scan from cursor index `i` on:
/// each step attributes the characters it skips as insignificant and the
/// characters of the token it produces, and nothing else.
pub open spec fn attributed_length(s: Seq<char>, i: int) -> int
    decreases s.len() - i,
        via attributed_length_decreases
{
    if !(0 <= i <= s.len()) {
        0
    } else {
        let j = skip_insignificant(s, i);
        if j >= s.len() {
            j - i
        } else {
            let step = token_at(s, j);
            (j - i) + (step.end - j) + attributed_length(s, step.end)
        }
    }
}

#[via_fn]
proof fn attributed_length_decreases(s: Seq<char>, i: int) {
    if 0 <= i <= s.len() {
        lemma_skip_insignificant_bounds(s, i);
        let j = skip_insignificant(s, i);
        if j < s.len() {
            lemma_token_at_advances(s, j);
        }
    }
}

/// Law: the scan attributes every character of the input exactly once —
/// either to insignificant input (whitespace or a comment) or to exactly one
/// token's span — so the insignificant runs and the tokens' spans together
/// reconstruct the whole input length.
pub proof fn lemma_all_input_attributed(s: Seq<char>, i: int)
    requires
        0 <= i <= s.len(),
    ensures
        attributed_length(s, i) == s.len() - i,
    decreases s.len() - i,
{
    lemma_skip_insignificant_bounds(s, i);
    let j = skip_insignificant(s, i);
    if j < s.len() {
        lemma_token_at_advances(s, j);
        lemma_all_input_attributed(s, token_at(s, j).end);
    }
}

/// Law: the token sequence is a function of the input text alone, so
/// re-tokenizing the same input yields an identical token sequence.
pub proof fn lemma_scan_deterministic(
    s: Seq<char>,
    first: Seq<TokenView>,
    second: Seq<TokenView>,
)
    requires
        first == spec_tokens(s, 0),
        second == spec_tokens(s, 0),
    ensures
        first == second,
{
}

/// Law: an identifier-shaped run — an alphabetic character or underscore,
/// followed by the maximal run of alphanumerics, underscores and hyphens —
/// is classified as a `Keyword` exactly when it is `def`, `header` or
/// `body`, and as an `Identifier` otherwise, carrying the run as its value.
pub proof fn lemma_word_classification(s: Seq<char>, j: int)
    requires
        0 <= j < s.len(),
        is_identifier_start(s[j]),
    ensures
        ({
            let w = s.subrange(j, identifier_end(s, j + 1));
            &&& token_at(s, j).token.value == w
            &&& is_keyword(w) ==> token_at(s, j).token.token_type == TokenTypeView::Keyword(w)
            &&& !is_keyword(w) ==> token_at(s, j).token.token_type == TokenTypeView::Identifier(w)
        }),
{
}

} // verus!

