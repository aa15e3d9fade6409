//! The mathematical model of the scan: spec functions over the source text
//! as a sequence of characters that fix, construct by construct, the token
//! sequence the scanner produces and the error that stops it, if one does.

use vstd::prelude::*;

use crate::tokens::{spec_token_type_of, SpecLexError, SpecToken, TokenType};

verus! {

/// Whether a character is an ASCII digit.
pub open spec fn is_digit_char(c: char) -> bool {
    48 <= c as u32 && c as u32 <= 57
}

/// Whether a character is an ASCII digit, decided on its code point.
pub fn is_ascii_digit_char(c: char) -> (b: bool)
    ensures
        b == is_digit_char(c),
{
    let u = c as u32;
    48 <= u && u <= 57
}

/// Whether a character counts as alphabetic; what `char::is_alphabetic`
/// returns, a function of the character alone.
pub uninterp spec fn alphabetic(c: char) -> bool;

/// Whether a character counts as alphanumeric; what `char::is_alphanumeric`
/// returns, a function of the character alone.
pub uninterp spec fn alphanumeric(c: char) -> bool;

/// Relies on char::is_alphabetic: whether the character has the Unicode
/// Alphabetic property, which depends on the character alone.
#[verifier::external_body]
pub(crate) fn char_is_alphabetic(c: char) -> (b: bool)
    ensures
        b == alphabetic(c),
{
    c.is_alphabetic()
}

/// Relies on char::is_alphanumeric: whether the character is alphabetic or
/// numeric under Unicode, which depends on the character alone.
#[verifier::external_body]
pub(crate) fn char_is_alphanumeric(c: char) -> (b: bool)
    ensures
        b == alphanumeric(c),
{
    c.is_alphanumeric()
}

/// The index of the first newline at or after `i`, or the input's length:
/// where a line comment that is open at `i` ends.
pub open spec fn line_comment_end(s: Seq<char>, i: int) -> int
    decreases s.len() - i when 0 <= i <= s.len()
{
    if i >= s.len() {
        i
    } else if s[i] == '\n' {
        i
    } else {
        line_comment_end(s, i + 1)
    }
}

pub proof fn lemma_line_comment_end(s: Seq<char>, i: int)
    requires
        0 <= i <= s.len(),
    ensures
        i <= line_comment_end(s, i) <= s.len(),
        forall|k: int| i <= k < line_comment_end(s, i) ==> s[k] != '\n',
        line_comment_end(s, i) < s.len() ==> s[line_comment_end(s, i)] == '\n',
    decreases s.len() - i,
{
    if i < s.len() && s[i] != '\n' {
        lemma_line_comment_end(s, i + 1);
    }
}

/// The index of the first double quote at or after `i`, or the input's
/// length: where the body of a string literal that is open at `i` ends.
pub open spec fn string_body_end(s: Seq<char>, i: int) -> int
    decreases s.len() - i when 0 <= i <= s.len()
{
    if i >= s.len() {
        i
    } else if s[i] == '"' {
        i
    } else {
        string_body_end(s, i + 1)
    }
}

pub proof fn lemma_string_body_end(s: Seq<char>, i: int)
    requires
        0 <= i <= s.len(),
    ensures
        i <= string_body_end(s, i) <= s.len(),
        forall|k: int| i <= k < string_body_end(s, i) ==> s[k] != '"',
        string_body_end(s, i) < s.len() ==> s[string_body_end(s, i)] == '"',
    decreases s.len() - i,
{
    if i < s.len() && s[i] != '"' {
        lemma_string_body_end(s, i + 1);
    }
}

/// Where no double quote stands in `[i, j)` and `j` is the input's length
/// or carries one, the string body open at `i` ends exactly at `j`.
pub proof fn lemma_string_body_end_hits(s: Seq<char>, i: int, j: int)
    requires
        0 <= i <= j <= s.len(),
        forall|k: int| i <= k < j ==> s[k] != '"',
        j < s.len() ==> s[j] == '"',
    ensures
        string_body_end(s, i) == j,
    decreases j - i,
{
    if i < j {
        lemma_string_body_end_hits(s, i + 1, j);
    }
}

/// The index of the first non-digit at or after `i`, or the input's length.
pub open spec fn digit_run_end(s: Seq<char>, i: int) -> int
    decreases s.len() - i when 0 <= i <= s.len()
{
    if i >= s.len() {
        i
    } else if !is_digit_char(s[i]) {
        i
    } else {
        digit_run_end(s, i + 1)
    }
}

pub proof fn lemma_digit_run_end(s: Seq<char>, i: int)
    requires
        0 <= i <= s.len(),
    ensures
        i <= digit_run_end(s, i) <= s.len(),
        forall|k: int| i <= k < digit_run_end(s, i) ==> is_digit_char(s[k]),
        digit_run_end(s, i) < s.len() ==> !is_digit_char(s[digit_run_end(s, i)]),
    decreases s.len() - i,
{
    if i < s.len() && is_digit_char(s[i]) {
        lemma_digit_run_end(s, i + 1);
    }
}

/// Where only digits stand in `[i, j)` and `j` is the input's length or
/// carries none, the digit run that is open at `i` ends exactly at `j`.
pub proof fn lemma_digit_run_end_hits(s: Seq<char>, i: int, j: int)
    requires
        0 <= i <= j <= s.len(),
        forall|k: int| i <= k < j ==> is_digit_char(s[k]),
        j < s.len() ==> !is_digit_char(s[j]),
    ensures
        digit_run_end(s, i) == j,
    decreases j - i,
{
    if i < j {
        lemma_digit_run_end_hits(s, i + 1, j);
    }
}

/// The index of the first non-alphanumeric character at or after `i`, or the
/// input's length: where an identifier or keyword that is open at `i` ends.
pub open spec fn word_end(s: Seq<char>, i: int) -> int
    decreases s.len() - i when 0 <= i <= s.len()
{
    if i >= s.len() {
        i
    } else if !alphanumeric(s[i]) {
        i
    } else {
        word_end(s, i + 1)
    }
}

pub proof fn lemma_word_end(s: Seq<char>, i: int)
    requires
        0 <= i <= s.len(),
    ensures
        i <= word_end(s, i) <= s.len(),
        forall|k: int| i <= k < word_end(s, i) ==> alphanumeric(s[k]),
        word_end(s, i) < s.len() ==> !alphanumeric(s[word_end(s, i)]),
    decreases s.len() - i,
{
    if i < s.len() && alphanumeric(s[i]) {
        lemma_word_end(s, i + 1);
    }
}

/// Where only alphanumeric characters stand in `[i, j)` and `j` is the
/// input's length or carries none, the word open at `i` ends exactly at `j`.
pub proof fn lemma_word_end_hits(s: Seq<char>, i: int, j: int)
    requires
        0 <= i <= j <= s.len(),
        forall|k: int| i <= k < j ==> alphanumeric(s[k]),
        j < s.len() ==> !alphanumeric(s[j]),
    ensures
        word_end(s, i) == j,
    decreases j - i,
{
    if i < j {
        lemma_word_end_hits(s, i + 1, j);
    }
}

/// How many newline characters stand in `s` in the range `[i, j)`.
pub open spec fn newline_count(s: Seq<char>, i: int, j: int) -> int
    decreases j - i when i <= j
{
    if i >= j {
        0
    } else {
        newline_count(s, i, j - 1) + (if s[j - 1] == '\n' {
            1int
        } else {
            0int
        })
    }
}

pub proof fn lemma_newline_count_bounds(s: Seq<char>, i: int, j: int)
    requires
        i <= j,
    ensures
        0 <= newline_count(s, i, j) <= j - i,
    decreases j - i,
{
    if i < j {
        lemma_newline_count_bounds(s, i, j - 1);
    }
}

pub proof fn lemma_newline_count_split(s: Seq<char>, i: int, j: int, k: int)
    requires
        i <= j <= k,
    ensures
        newline_count(s, i, k) == newline_count(s, i, j) + newline_count(s, j, k),
    decreases k - j,
{
    if j < k {
        lemma_newline_count_split(s, i, j, k - 1);
    }
}

pub proof fn lemma_newline_count_zero(s: Seq<char>, i: int, j: int)
    requires
        i <= j,
        forall|k: int| i <= k < j ==> s[k] != '\n',
    ensures
        newline_count(s, i, j) == 0,
    decreases j - i,
{
    if i < j {
        lemma_newline_count_zero(s, i, j - 1);
    }
}

/// One step of the scan at a position inside the input: emit one token and
/// move to a later position (possibly on a later line), skip text and move
/// on the same way, or fail with a lexical error.
pub ghost enum SpecStep {
    Emit(SpecToken, int, int),
    Skip(int, int),
    Fail(SpecLexError),
}

/// A one-character token with no lexeme, scanned at position `i`.
pub open spec fn plain_step(token_type: TokenType, i: int, line: int) -> SpecStep {
    SpecStep::Emit(
        SpecToken { token_type, lexeme: None, literal: None, line },
        i + 1,
        line,
    )
}

/// An operator at `i` that forms its two-character variant when `=` follows
/// directly, and its one-character variant otherwise.
pub open spec fn operator_step(
    s: Seq<char>,
    i: int,
    line: int,
    two: TokenType,
    one: TokenType,
) -> SpecStep {
    if i + 1 < s.len() && s[i + 1] == '=' {
        SpecStep::Emit(
            SpecToken { token_type: two, lexeme: None, literal: None, line },
            i + 2,
            line,
        )
    } else {
        plain_step(one, i, line)
    }
}

/// A string literal opened at `i`: its lexeme is the text strictly between
/// the quotes and its literal the quoted text including both quotes; it is
/// stamped with the line it began on, and each newline inside it advances
/// the line counter by one. Input that ends before the closing quote is the
/// unterminated-string error, reported on the line the literal began on.
pub open spec fn string_step(s: Seq<char>, i: int, line: int) -> SpecStep {
    let j = string_body_end(s, i + 1);
    if j >= s.len() {
        SpecStep::Fail(SpecLexError::UnterminatedString { line })
    } else {
        SpecStep::Emit(
            SpecToken {
                token_type: TokenType::String,
                lexeme: Some(s.subrange(i + 1, j)),
                literal: Some(s.subrange(i, j + 1)),
                line,
            },
            j + 1,
            line + newline_count(s, i + 1, j),
        )
    }
}

/// A number literal whose first digit stands at `i`: one or more digits,
/// then a fractional part only when a dot is directly followed by another
/// digit. A trailing dot that no digit follows is not consumed.
pub open spec fn number_step(s: Seq<char>, i: int, line: int) -> SpecStep {
    let j = digit_run_end(s, i + 1);
    let k = if j < s.len() && s[j] == '.' && j + 1 < s.len() && is_digit_char(s[j + 1]) {
        digit_run_end(s, j + 1)
    } else {
        j
    };
    SpecStep::Emit(
        SpecToken {
            token_type: TokenType::Number,
            lexeme: Some(s.subrange(i, k)),
            literal: None,
            line,
        },
        k,
        line,
    )
}

/// An identifier or keyword whose first character stands at `i`: the maximal
/// alphanumeric run, classified against the reserved-word table.
pub open spec fn word_step(s: Seq<char>, i: int, line: int) -> SpecStep {
    let j = word_end(s, i + 1);
    SpecStep::Emit(
        SpecToken {
            token_type: spec_token_type_of(s.subrange(i, j)),
            lexeme: Some(s.subrange(i, j)),
            literal: None,
            line,
        },
        j,
        line,
    )
}

/// What the scanner does with the construct that starts at position `i` of
/// `s`, on line `line`. Positions index characters, not bytes.
pub open spec fn scan_step(s: Seq<char>, i: int, line: int) -> SpecStep
    recommends
        0 <= i < s.len(),
{
    let c = s[i];
    if c == '(' {
        plain_step(TokenType::LeftParenthesis, i, line)
    } else if c == ')' {
        plain_step(TokenType::RightParenthesis, i, line)
    } else if c == '{' {
        plain_step(TokenType::LeftBrace, i, line)
    } else if c == '}' {
        plain_step(TokenType::RightBrace, i, line)
    } else if c == ',' {
        plain_step(TokenType::Comma, i, line)
    } else if c == '.' {
        plain_step(TokenType::Dot, i, line)
    } else if c == '-' {
        plain_step(TokenType::Minus, i, line)
    } else if c == '+' {
        plain_step(TokenType::Plus, i, line)
    } else if c == ';' {
        plain_step(TokenType::Semicolon, i, line)
    } else if c == '*' {
        plain_step(TokenType::Star, i, line)
    } else if c == '!' {
        operator_step(s, i, line, TokenType::BangEqual, TokenType::Bang)
    } else if c == '=' {
        operator_step(s, i, line, TokenType::EqualEqual, TokenType::Equal)
    } else if c == '<' {
        operator_step(s, i, line, TokenType::LessEqual, TokenType::Less)
    } else if c == '>' {
        operator_step(s, i, line, TokenType::GreaterEqual, TokenType::Greater)
    } else if c == '/' {
        if i + 1 < s.len() && s[i + 1] == '/' {
            SpecStep::Skip(line_comment_end(s, i + 2), line)
        } else {
            plain_step(TokenType::Slash, i, line)
        }
    } else if c == ' ' || c == '\r' || c == '\t' {
        SpecStep::Skip(i + 1, line)
    } else if c == '\n' {
        SpecStep::Skip(i + 1, line + 1)
    } else if c == '"' {
        string_step(s, i, line)
    } else if is_digit_char(c) {
        number_step(s, i, line)
    } else if alphabetic(c) {
        word_step(s, i, line)
    } else {
        SpecStep::Fail(SpecLexError::UnrecognizedCharacter { character: c, line })
    }
}

/// A step taken inside the input always moves forward, never past the end,
/// and advances the line counter by at most one line per consumed character.
pub proof fn lemma_scan_step_bounds(s: Seq<char>, i: int, line: int)
    requires
        0 <= i < s.len(),
    ensures
        (match scan_step(s, i, line) {
            SpecStep::Emit(t, ni, nl) => i < ni <= s.len() && line <= nl && nl - line <= ni - i,
            SpecStep::Skip(ni, nl) => i < ni <= s.len() && line <= nl && nl - line <= ni - i,
            SpecStep::Fail(e) => true,
        }),
{
    let c = s[i];
    if c == '/' && i + 1 < s.len() && s[i + 1] == '/' {
        lemma_line_comment_end(s, i + 2);
    } else if c == '"' {
        lemma_string_body_end(s, i + 1);
        let j = string_body_end(s, i + 1);
        if j < s.len() {
            lemma_newline_count_bounds(s, i + 1, j);
        }
    } else if is_digit_char(c) {
        lemma_digit_run_end(s, i + 1);
        let j = digit_run_end(s, i + 1);
        if j < s.len() && s[j] == '.' && j + 1 < s.len() && is_digit_char(s[j + 1]) {
            lemma_digit_run_end(s, j + 1);
            assert(digit_run_end(s, j + 1) == digit_run_end(s, j + 2));
            lemma_digit_run_end(s, j + 2);
        }
    } else if alphabetic(c) {
        lemma_word_end(s, i + 1);
    }
}

/// The token sequence scanned from position `i` of `s` on line `line`,
/// paired with the error that stopped the scan, if one did. On success the
/// sequence ends with exactly one end-of-input token; on failure it holds
/// exactly the tokens emitted before the error.
pub open spec fn scan_at(s: Seq<char>, i: int, line: int) -> (Seq<SpecToken>, Option<SpecLexError>)
    decreases s.len() - i when 0 <= i <= s.len()
{
    if i >= s.len() {
        (
            seq![SpecToken { token_type: TokenType::Eof, lexeme: None, literal: None, line }],
            None,
        )
    } else {
        proof {
            lemma_scan_step_bounds(s, i, line);
        }
        match scan_step(s, i, line) {
            SpecStep::Fail(e) => (Seq::<SpecToken>::empty(), Some(e)),
            SpecStep::Emit(t, ni, nl) => {
                let rest = scan_at(s, ni, nl);
                (seq![t] + rest.0, rest.1)
            },
            SpecStep::Skip(ni, nl) => scan_at(s, ni, nl),
        }
    }
}

/// The scan of a whole source text, from its start on line 1.
pub open spec fn spec_scan(s: Seq<char>) -> (Seq<SpecToken>, Option<SpecLexError>) {
    scan_at(s, 0, 1)
}

/// Unfolds the scan by one construct: an emitted token is the next token of
/// the stream and the scan continues from where the step ends; skipped text
/// leaves the stream unchanged; a failing step ends the scan with its error
/// and no further tokens.
pub proof fn lemma_scan_at_step(s: Seq<char>, i: int, line: int)
    requires
        0 <= i < s.len(),
    ensures
        (match scan_step(s, i, line) {
            SpecStep::Emit(t, ni, nl) => scan_at(s, i, line).0 == seq![t] + scan_at(s, ni, nl).0
                && scan_at(s, i, line).1 == scan_at(s, ni, nl).1,
            SpecStep::Skip(ni, nl) => scan_at(s, i, line) == scan_at(s, ni, nl),
            SpecStep::Fail(e) => scan_at(s, i, line) == (Seq::<SpecToken>::empty(), Some(e)),
        }),
{
    lemma_scan_step_bounds(s, i, line);
}

} // verus!
