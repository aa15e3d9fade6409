//! Laws of the scanner, stated over the model and proved: what holds of
//! whole classes of source texts, beyond any single scan.

use vstd::prelude::*;

use crate::model::{
    alphabetic, alphanumeric, is_digit_char, lemma_digit_run_end_hits, lemma_line_comment_end,
    lemma_newline_count_split, lemma_newline_count_zero, lemma_scan_at_step,
    lemma_scan_step_bounds, lemma_string_body_end_hits, lemma_word_end_hits, line_comment_end,
    newline_count, scan_at, scan_step, spec_scan, SpecStep,
};
use crate::tokens::{fixed_spelling, spec_token_type_of, SpecLexError, SpecToken, TokenType};

verus! {

broadcast use vstd::string::group_string_axioms;

/// Whether the text from `i` on holds nothing but whitespace and line
/// comments.
pub open spec fn blank_from(s: Seq<char>, i: int) -> bool
    decreases s.len() - i when 0 <= i <= s.len()
{
    if i >= s.len() {
        true
    } else if s[i] == ' ' || s[i] == '\r' || s[i] == '\t' || s[i] == '\n' {
        blank_from(s, i + 1)
    } else if s[i] == '/' && i + 1 < s.len() && s[i + 1] == '/' {
        proof {
            lemma_line_comment_end(s, i + 2);
        }
        blank_from(s, line_comment_end(s, i + 2))
    } else {
        false
    }
}

proof fn lemma_blank_scan_from(s: Seq<char>, i: int, line: int)
    requires
        0 <= i <= s.len(),
        blank_from(s, i),
    ensures
        scan_at(s, i, line).1 is None,
        scan_at(s, i, line).0 == seq![
            (SpecToken {
                token_type: TokenType::Eof,
                lexeme: None,
                literal: None,
                line: line + newline_count(s, i, s.len() as int),
            }),
        ],
    decreases s.len() - i,
{
    if i >= s.len() {
    } else {
        let c = s[i];
        lemma_scan_at_step(s, i, line);
        if c == ' ' || c == '\r' || c == '\t' {
            lemma_blank_scan_from(s, i + 1, line);
            lemma_newline_count_zero(s, i, i + 1);
            lemma_newline_count_split(s, i, i + 1, s.len() as int);
        } else if c == '\n' {
            lemma_blank_scan_from(s, i + 1, line + 1);
            assert(newline_count(s, i, i) == 0);
            assert(newline_count(s, i, i + 1) == 1);
            lemma_newline_count_split(s, i, i + 1, s.len() as int);
        } else {
            lemma_line_comment_end(s, i + 2);
            let j = line_comment_end(s, i + 2);
            lemma_blank_scan_from(s, j, line);
            lemma_newline_count_zero(s, i, j);
            lemma_newline_count_split(s, i, j, s.len() as int);
        }
    }
}

/// A source text of only whitespace and line comments scans, without error,
/// to exactly one end-of-input token, whose line is the number of newlines
/// in the text plus one.
pub proof fn lemma_blank_source(s: Seq<char>)
    requires
        blank_from(s, 0),
    ensures
        spec_scan(s).1 is None,
        spec_scan(s).0 == seq![
            (SpecToken {
                token_type: TokenType::Eof,
                lexeme: None,
                literal: None,
                line: 1 + newline_count(s, 0, s.len() as int),
            }),
        ],
{
    lemma_blank_scan_from(s, 0, 1);
}

/// The two-character variant of an operator lead.
pub open spec fn two_char_variant(c: char) -> TokenType {
    if c == '!' {
        TokenType::BangEqual
    } else if c == '=' {
        TokenType::EqualEqual
    } else if c == '<' {
        TokenType::LessEqual
    } else {
        TokenType::GreaterEqual
    }
}

/// An operator lead (`!`, `=`, `<`, `>`) followed directly by `=` scans to
/// exactly one two-character operator token, never to two one-character
/// tokens: the token stream continues after both characters.
pub proof fn lemma_two_char_operator(s: Seq<char>, i: int, line: int)
    requires
        0 <= i,
        i + 1 < s.len(),
        s[i] == '!' || s[i] == '=' || s[i] == '<' || s[i] == '>',
        s[i + 1] == '=',
    ensures
        scan_step(s, i, line) == SpecStep::Emit(
            (SpecToken { token_type: two_char_variant(s[i]), lexeme: None, literal: None, line }),
            i + 2,
            line,
        ),
        scan_at(s, i, line).0 == seq![
            (SpecToken { token_type: two_char_variant(s[i]), lexeme: None, literal: None, line }),
        ] + scan_at(s, i + 2, line).0,
        scan_at(s, i, line).1 == scan_at(s, i + 2, line).1,
{
    lemma_scan_at_step(s, i, line);
}

/// A terminated string literal with no embedded newline scans to one string
/// token whose lexeme is the text strictly between the quotes and whose
/// literal is the quoted text including both quotes, on an unchanged line.
pub proof fn lemma_string_token_fields(s: Seq<char>, i: int, j: int, line: int)
    requires
        0 <= i < j < s.len(),
        s[i] == '"',
        s[j] == '"',
        forall|k: int| i < k < j ==> s[k] != '"',
        forall|k: int| i < k < j ==> s[k] != '\n',
    ensures
        scan_step(s, i, line) == SpecStep::Emit(
            (SpecToken {
                token_type: TokenType::String,
                lexeme: Some(s.subrange(i + 1, j)),
                literal: Some(s.subrange(i, j + 1)),
                line,
            }),
            j + 1,
            line,
        ),
{
    lemma_string_body_end_hits(s, i + 1, j);
    lemma_newline_count_zero(s, i + 1, j);
}

/// A terminated string literal is stamped with the line it began on, and by
/// the time the following construct is scanned the line counter has
/// advanced by exactly the number of newlines embedded in the literal.
pub proof fn lemma_string_line_advance(s: Seq<char>, i: int, j: int, line: int)
    requires
        0 <= i < j < s.len(),
        s[i] == '"',
        s[j] == '"',
        forall|k: int| i < k < j ==> s[k] != '"',
    ensures
        scan_step(s, i, line) == SpecStep::Emit(
            (SpecToken {
                token_type: TokenType::String,
                lexeme: Some(s.subrange(i + 1, j)),
                literal: Some(s.subrange(i, j + 1)),
                line,
            }),
            j + 1,
            line + newline_count(s, i + 1, j),
        ),
{
    lemma_string_body_end_hits(s, i + 1, j);
}

/// Each reserved word, matched exactly and case-sensitively, classifies as
/// its own keyword category.
pub proof fn lemma_keyword_classification()
    ensures
        spec_token_type_of("and"@) == TokenType::And,
        spec_token_type_of("class"@) == TokenType::Class,
        spec_token_type_of("else"@) == TokenType::Else,
        spec_token_type_of("false"@) == TokenType::False,
        spec_token_type_of("fun"@) == TokenType::Fun,
        spec_token_type_of("for"@) == TokenType::For,
        spec_token_type_of("if"@) == TokenType::If,
        spec_token_type_of("nil"@) == TokenType::Nil,
        spec_token_type_of("or"@) == TokenType::Or,
        spec_token_type_of("print"@) == TokenType::Print,
        spec_token_type_of("return"@) == TokenType::Return,
        spec_token_type_of("super"@) == TokenType::Super,
        spec_token_type_of("this"@) == TokenType::This,
        spec_token_type_of("true"@) == TokenType::True,
        spec_token_type_of("var"@) == TokenType::Var,
        spec_token_type_of("while"@) == TokenType::While,
{
    reveal_strlit("(");
    reveal_strlit(")");
    reveal_strlit("{");
    reveal_strlit("}");
    reveal_strlit(",");
    reveal_strlit(".");
    reveal_strlit("-");
    reveal_strlit("+");
    reveal_strlit(";");
    reveal_strlit("/");
    reveal_strlit("*");
    reveal_strlit("!");
    reveal_strlit("!=");
    reveal_strlit("=");
    reveal_strlit("==");
    reveal_strlit(">");
    reveal_strlit(">=");
    reveal_strlit("<");
    reveal_strlit("<=");
    reveal_strlit("and");
    reveal_strlit("class");
    reveal_strlit("else");
    reveal_strlit("false");
    reveal_strlit("fun");
    reveal_strlit("for");
    reveal_strlit("if");
    reveal_strlit("nil");
    reveal_strlit("or");
    reveal_strlit("print");
    reveal_strlit("return");
    reveal_strlit("super");
    reveal_strlit("this");
    reveal_strlit("true");
    reveal_strlit("var");
    reveal_strlit("while");
    assert("("@ =~= seq!['(']);
    assert(")"@ =~= seq![')']);
    assert("{"@ =~= seq!['{']);
    assert("}"@ =~= seq!['}']);
    assert(","@ =~= seq![',']);
    assert("."@ =~= seq!['.']);
    assert("-"@ =~= seq!['-']);
    assert("+"@ =~= seq!['+']);
    assert(";"@ =~= seq![';']);
    assert("/"@ =~= seq!['/']);
    assert("*"@ =~= seq!['*']);
    assert("!"@ =~= seq!['!']);
    assert("!="@ =~= seq!['!', '=']);
    assert("="@ =~= seq!['=']);
    assert("=="@ =~= seq!['=', '=']);
    assert(">"@ =~= seq!['>']);
    assert(">="@ =~= seq!['>', '=']);
    assert("<"@ =~= seq!['<']);
    assert("<="@ =~= seq!['<', '=']);
    assert("and"@ =~= seq!['a', 'n', 'd']);
    assert("class"@ =~= seq!['c', 'l', 'a', 's', 's']);
    assert("else"@ =~= seq!['e', 'l', 's', 'e']);
    assert("false"@ =~= seq!['f', 'a', 'l', 's', 'e']);
    assert("fun"@ =~= seq!['f', 'u', 'n']);
    assert("for"@ =~= seq!['f', 'o', 'r']);
    assert("if"@ =~= seq!['i', 'f']);
    assert("nil"@ =~= seq!['n', 'i', 'l']);
    assert("or"@ =~= seq!['o', 'r']);
    assert("print"@ =~= seq!['p', 'r', 'i', 'n', 't']);
    assert("return"@ =~= seq!['r', 'e', 't', 'u', 'r', 'n']);
    assert("super"@ =~= seq!['s', 'u', 'p', 'e', 'r']);
    assert("this"@ =~= seq!['t', 'h', 'i', 's']);
    assert("true"@ =~= seq!['t', 'r', 'u', 'e']);
    assert("var"@ =~= seq!['v', 'a', 'r']);
    assert("while"@ =~= seq!['w', 'h', 'i', 'l', 'e']);
}

/// Any word that is none of the fixed spellings classifies as an
/// identifier; the classification is total and has no error case.
pub proof fn lemma_identifier_fallback(w: Seq<char>)
    requires
        !fixed_spelling(w),
    ensures
        spec_token_type_of(w) == TokenType::Identifier,
{
}

/// Whether a character is one the scanner dispatches on directly: the
/// punctuation and operator leads, whitespace, and the string quote.
pub open spec fn lead_special(c: char) -> bool {
    c == '(' || c == ')' || c == '{' || c == '}' || c == ',' || c == '.' || c == '-' || c == '+'
        || c == ';' || c == '*' || c == '!' || c == '=' || c == '<' || c == '>' || c == '/'
        || c == ' ' || c == '\r' || c == '\t' || c == '\n' || c == '"'
}

/// A maximal alphanumeric run led by an alphabetic character scans to one
/// token covering exactly the run, classified against the reserved-word
/// table: a reserved word yields its keyword category only as a whole word,
/// never as a prefix of a longer identifier, and any other word yields the
/// identifier category.
pub proof fn lemma_word_token(s: Seq<char>, i: int, j: int, line: int)
    requires
        0 <= i < j <= s.len(),
        !lead_special(s[i]),
        !is_digit_char(s[i]),
        alphabetic(s[i]),
        forall|k: int| i < k < j ==> alphanumeric(s[k]),
        j == s.len() || !alphanumeric(s[j]),
    ensures
        scan_step(s, i, line) == SpecStep::Emit(
            (SpecToken {
                token_type: spec_token_type_of(s.subrange(i, j)),
                lexeme: Some(s.subrange(i, j)),
                literal: None,
                line,
            }),
            j,
            line,
        ),
{
    lemma_word_end_hits(s, i + 1, j);
}

/// A digit run followed by a dot that no digit follows scans to a number
/// token covering only the digits before the dot: the dot is not consumed,
/// and is scanned as the next construct.
pub proof fn lemma_number_trailing_dot(s: Seq<char>, i: int, j: int, line: int)
    requires
        0 <= i < j < s.len(),
        forall|k: int| i <= k < j ==> is_digit_char(s[k]),
        s[j] == '.',
        j + 1 == s.len() || !is_digit_char(s[j + 1]),
    ensures
        scan_step(s, i, line) == SpecStep::Emit(
            (SpecToken {
                token_type: TokenType::Number,
                lexeme: Some(s.subrange(i, j)),
                literal: None,
                line,
            }),
            j,
            line,
        ),
{
    lemma_digit_run_end_hits(s, i + 1, j);
}

/// No step inside the input ever emits the end-of-input token: it is
/// reserved for the end of the scan.
proof fn lemma_step_emits_no_eof(s: Seq<char>, i: int, line: int)
    requires
        0 <= i < s.len(),
    ensures
        (match scan_step(s, i, line) {
            SpecStep::Emit(t, ni, nl) => t.token_type != TokenType::Eof,
            SpecStep::Skip(ni, nl) => true,
            SpecStep::Fail(e) => true,
        }),
{
}

/// A successful scan emits at least the end-of-input token, emits it as its
/// last token, and emits it exactly once.
pub proof fn lemma_single_eof_and_last(s: Seq<char>, i: int, line: int)
    requires
        0 <= i <= s.len(),
        scan_at(s, i, line).1 is None,
    ensures
        scan_at(s, i, line).0.len() > 0,
        scan_at(s, i, line).0.last().token_type == TokenType::Eof,
        forall|k: int|
            0 <= k < scan_at(s, i, line).0.len() - 1 ==> scan_at(s, i, line).0[k].token_type
                != TokenType::Eof,
    decreases s.len() - i,
{
    if i < s.len() {
        lemma_scan_step_bounds(s, i, line);
        lemma_scan_at_step(s, i, line);
        lemma_step_emits_no_eof(s, i, line);
        match scan_step(s, i, line) {
            SpecStep::Emit(t, ni, nl) => {
                lemma_single_eof_and_last(s, ni, nl);
                let rest = scan_at(s, ni, nl).0;
                assert(scan_at(s, i, line).0.last() == rest.last());
            },
            SpecStep::Skip(ni, nl) => {
                lemma_single_eof_and_last(s, ni, nl);
            },
            SpecStep::Fail(e) => {},
        }
    }
}

/// Input that ends inside a string literal scans to the unterminated-string
/// error, reported on the line the literal began on: no token is emitted
/// for the literal and the scan is not a success.
pub proof fn lemma_unterminated_string(s: Seq<char>, i: int, line: int)
    requires
        0 <= i < s.len(),
        s[i] == '"',
        forall|k: int| i < k < s.len() ==> s[k] != '"',
    ensures
        scan_step(s, i, line) == SpecStep::Fail(SpecLexError::UnterminatedString { line }),
        scan_at(s, i, line).1 == Some(SpecLexError::UnterminatedString { line }),
        scan_at(s, i, line).0 == Seq::<SpecToken>::empty(),
{
    lemma_string_body_end_hits(s, i + 1, s.len() as int);
    lemma_scan_at_step(s, i, line);
}

} // verus!

