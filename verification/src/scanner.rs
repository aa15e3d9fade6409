//! The scanner: a single left-to-right pass over the source text, driven by
//! a character cursor, proven to produce exactly the token sequence that the
//! model in `model` fixes for the text.

use vstd::prelude::*;
use vstd::std_specs::iter::IteratorSpec;
use vstd::string::StrSliceExecFns;

use crate::model::{
    char_is_alphabetic, char_is_alphanumeric, digit_run_end, is_ascii_digit_char,
    lemma_scan_at_step, lemma_scan_step_bounds, line_comment_end, newline_count, number_step,
    scan_at, scan_step, spec_scan, string_body_end, string_step, word_end, word_step, SpecStep,
};
use crate::tokens::{view_opt_str, LexError, SpecToken, Token, TokenType};

verus! {

broadcast use vstd::string::group_string_axioms;

/// The views of a sequence of tokens, in order.
pub open spec fn toks_view<'a>(ts: Seq<Token<'a>>) -> Seq<SpecToken> {
    ts.map_values(|t: Token<'a>| t@)
}

pub proof fn lemma_toks_view_push<'a>(ts: Seq<Token<'a>>, t: Token<'a>)
    ensures
        toks_view(ts.push(t)) == toks_view(ts).push(t@),
{
    assert(toks_view(ts.push(t)) =~= toks_view(ts).push(t@));
}

/// The scanner: owns a character cursor over the borrowed source text and
/// the growing token sequence. It is constructed once per source buffer and
/// run to completion exactly once.
pub struct Scanner<'a> {
    file: &'a str,
    chars: Vec<char>,
    pub tokens: Vec<Token<'a>>,
    start: usize,
    current: usize,
    line: usize,
}

impl<'a> Scanner<'a> {
    /// The source text as a sequence of characters.
    pub closed spec fn source(&self) -> Seq<char> {
        self.file@
    }

    /// The views of the tokens emitted so far, in order.
    pub closed spec fn emitted(&self) -> Seq<SpecToken> {
        toks_view(self.tokens@)
    }

    /// Internal consistency: the character cache mirrors the source text,
    /// the cursor offsets stay inside it in order, and the line counter
    /// stays within one of the characters consumed so far.
    pub closed spec fn wf(&self) -> bool {
        &&& self.chars@ == self.file@
        &&& self.chars@.len() < usize::MAX
        &&& self.start <= self.current
        &&& self.current <= self.chars@.len()
        &&& 1 <= self.line
        &&& self.line <= 1 + self.current
    }

    /// A scanner that has not started scanning yet: the cursor rests at the
    /// beginning, on line 1, with no token emitted.
    pub closed spec fn unscanned(&self) -> bool {
        &&& self.current == 0
        &&& self.start == 0
        &&& self.line == 1
        &&& self.tokens@.len() == 0
    }

    /// Builds a scanner over `file`. The text is cached character by
    /// character once, so that all cursor arithmetic works on character
    /// positions, never on byte offsets.
    pub fn new(file: &'a str) -> (s: Scanner<'a>)
        requires
            file@.len() < usize::MAX,
        ensures
            s.wf(),
            s.unscanned(),
            s.source() == file@,
            s.emitted() == Seq::<SpecToken>::empty(),
    {
        let mut chars: Vec<char> = Vec::new();
        let mut it = file.chars();
        loop
            invariant
                it.obeys_prophetic_iter_laws(),
                it.decrease() is Some,
                chars@ + it.remaining() == file@,
            ensures
                chars@ == file@,
            decreases it.decrease()->0,
        {
            let ghost prev = chars@;
            let ghost rem = it.remaining();
            match it.next() {
                Some(c) => {
                    chars.push(c);
                    proof {
                        assert(prev.push(c) + rem.drop_first() =~= prev + rem);
                    }
                },
                None => {
                    proof {
                        assert(chars@ + it.remaining() =~= chars@);
                    }
                    break;
                },
            }
        }
        Scanner { file, chars, tokens: Vec::new(), start: 0, current: 0, line: 1 }
    }

    /// Whether the cursor has reached the end of the source.
    fn cursor_done(&self) -> (r: bool)
        requires
            self.wf(),
        ensures
            r == (self.current >= self.chars@.len()),
    {
        self.current >= self.chars.len()
    }

    /// Returns the character under the cursor and moves the cursor past it;
    /// at the end of input returns nothing and leaves the cursor alone.
    fn advance(&mut self) -> (r: Option<char>)
        requires
            old(self).wf(),
        ensures
            final(self).wf(),
            final(self).file == old(self).file,
            final(self).chars == old(self).chars,
            final(self).tokens == old(self).tokens,
            final(self).start == old(self).start,
            final(self).line == old(self).line,
            (if old(self).current < old(self).chars@.len() {
                r == Some(old(self).chars@[old(self).current as int]) && final(self).current
                    == old(self).current + 1
            } else {
                r == None::<char> && final(self).current == old(self).current
            }),
    {
        if self.current < self.chars.len() {
            let c = self.chars[self.current];
            self.current = self.current + 1;
            Some(c)
        } else {
            None
        }
    }

    /// Consumes the character under the cursor only when it is `expected`;
    /// reports whether it did.
    fn advance_if_matches(&mut self, expected: char) -> (r: bool)
        requires
            old(self).wf(),
        ensures
            final(self).wf(),
            final(self).file == old(self).file,
            final(self).chars == old(self).chars,
            final(self).tokens == old(self).tokens,
            final(self).start == old(self).start,
            final(self).line == old(self).line,
            r == (old(self).current < old(self).chars@.len() && old(self).chars@[old(
                self,
            ).current as int] == expected),
            final(self).current == (if r {
                old(self).current + 1
            } else {
                old(self).current as int
            }),
    {
        if self.cursor_done() {
            return false;
        }
        let c = self.chars[self.current];
        if c == expected {
            self.current = self.current + 1;
        }
        c == expected
    }

    /// The character under the cursor, or the null character at the end of
    /// input, without moving the cursor.
    fn peek(&self) -> (c: char)
        requires
            self.wf(),
        ensures
            c == (if self.current < self.chars@.len() {
                self.chars@[self.current as int]
            } else {
                '\0'
            }),
    {
        if self.cursor_done() {
            return '\0';
        }
        self.chars[self.current]
    }

    /// The character one position past the cursor, or the null character
    /// when none stands there, without moving the cursor.
    fn peek_next(&self) -> (c: char)
        requires
            self.wf(),
        ensures
            c == (if self.current + 1 < self.chars@.len() {
                self.chars@[self.current + 1]
            } else {
                '\0'
            }),
    {
        if self.current + 1 < self.chars.len() {
            self.chars[self.current + 1]
        } else {
            '\0'
        }
    }

    /// Appends one token, stamped with the current line.
    fn add_token(&mut self, kind: TokenType, lexeme: Option<&'a str>, literal: Option<&'a str>)
        ensures
            final(self).file == old(self).file,
            final(self).chars == old(self).chars,
            final(self).start == old(self).start,
            final(self).current == old(self).current,
            final(self).line == old(self).line,
            toks_view(final(self).tokens@) == toks_view(old(self).tokens@).push(
                (SpecToken {
                    token_type: kind,
                    lexeme: view_opt_str(lexeme),
                    literal: view_opt_str(literal),
                    line: old(self).line as int,
                }),
            ),
            old(self).wf() ==> final(self).wf(),
    {
        let line = self.line;
        let t = Token::new(kind, lexeme, literal, line);
        self.tokens.push(t);
        proof {
            lemma_toks_view_push(old(self).tokens@, t);
        }
    }

    /// Scans the rest of a string literal; the cursor stands just past the
    /// opening quote. The token's lexeme is the text between the quotes,
    /// its literal the quoted text, and it is stamped with the line the
    /// literal began on; the newlines inside it then advance the line
    /// counter. Input ending before the closing quote is the
    /// unterminated-string error, reported on the line the literal began on.
    fn string(&mut self) -> (r: Result<(), LexError>)
        requires
            old(self).wf(),
            old(self).current == old(self).start + 1,
            old(self).start < old(self).chars@.len(),
        ensures
            final(self).wf(),
            final(self).file == old(self).file,
            final(self).chars == old(self).chars,
            final(self).start == old(self).start,
            (match string_step(old(self).source(), old(self).start as int, old(self).line as int) {
                SpecStep::Emit(t, ni, nl) => {
                    &&& r is Ok
                    &&& toks_view(final(self).tokens@) == toks_view(old(self).tokens@).push(t)
                    &&& final(self).current == ni
                    &&& final(self).line == nl
                },
                SpecStep::Fail(e) => {
                    &&& r is Err
                    &&& r->Err_0@ == e
                    &&& final(self).tokens == old(self).tokens
                },
                SpecStep::Skip(ni, nl) => false,
            }),
    {
        let ghost s = self.chars@;
        let ghost b0 = self.current as int;
        let ghost self0 = *self;
        let ghost start0 = self.start;
        let ghost line0 = self.line;
        let mut newlines: usize = 0;
        while self.peek() != '"' && !self.cursor_done()
            invariant
                self.wf(),
                self.file == self0.file,
                self.chars == self0.chars,
                self.chars@ == s,
                self.tokens == self0.tokens,
                self.start == start0,
                self.line == line0,
                b0 == start0 + 1,
                b0 <= self.current <= s.len(),
                string_body_end(s, b0) == string_body_end(s, self.current as int),
                newlines == newline_count(s, b0, self.current as int),
                newlines <= self.current - b0,
            decreases s.len() - self.current,
        {
            if self.peek() == '\n' {
                newlines = newlines + 1;
            }
            self.advance();
        }
        if self.cursor_done() {
            let line = self.line;
            return Err(LexError::UnterminatedString { line });
        }
        self.advance();
        let f = self.file;
        let lexeme = f.substring_char(self.start + 1, self.current - 1);
        let literal = f.substring_char(self.start, self.current);
        self.add_token(TokenType::String, Some(lexeme), Some(literal));
        self.line = self.line + newlines;
        Ok(())
    }

    /// Scans the rest of a number literal; the cursor stands just past its
    /// first digit. Consumes the digits of the integer part, then a
    /// fractional part only when a dot is directly followed by another
    /// digit; a trailing dot is left unconsumed.
    fn number(&mut self)
        requires
            old(self).wf(),
            old(self).current == old(self).start + 1,
            old(self).start < old(self).chars@.len(),
        ensures
            final(self).wf(),
            final(self).file == old(self).file,
            final(self).chars == old(self).chars,
            final(self).start == old(self).start,
            (match number_step(old(self).source(), old(self).start as int, old(self).line as int) {
                SpecStep::Emit(t, ni, nl) => {
                    &&& toks_view(final(self).tokens@) == toks_view(old(self).tokens@).push(t)
                    &&& final(self).current == ni
                    &&& final(self).line == nl
                },
                SpecStep::Skip(ni, nl) => false,
                SpecStep::Fail(e) => false,
            }),
    {
        let ghost s = self.chars@;
        let ghost b0 = self.current as int;
        let ghost self0 = *self;
        let ghost start0 = self.start;
        let ghost line0 = self.line;
        while is_ascii_digit_char(self.peek())
            invariant
                self.wf(),
                self.file == self0.file,
                self.chars == self0.chars,
                self.chars@ == s,
                self.tokens == self0.tokens,
                self.start == start0,
                self.line == line0,
                b0 <= self.current <= s.len(),
                digit_run_end(s, b0) == digit_run_end(s, self.current as int),
            decreases s.len() - self.current,
        {
            self.advance();
        }
        let ghost j = self.current as int;
        if self.peek() == '.' && is_ascii_digit_char(self.peek_next()) {
            self.advance();
            while is_ascii_digit_char(self.peek())
                invariant
                    self.wf(),
                    self.file == self0.file,
                    self.chars == self0.chars,
                    self.chars@ == s,
                    self.tokens == self0.tokens,
                    self.start == start0,
                    self.line == line0,
                    j + 1 <= self.current <= s.len(),
                    digit_run_end(s, j + 1) == digit_run_end(s, self.current as int),
                decreases s.len() - self.current,
            {
                self.advance();
            }
        }
        let f = self.file;
        let lexeme = f.substring_char(self.start, self.current);
        self.add_token(TokenType::Number, Some(lexeme), None);
    }

    /// Scans the rest of an identifier or keyword; the cursor stands just
    /// past its first character. Consumes the maximal alphanumeric run and
    /// classifies it against the reserved-word table.
    fn identifier(&mut self)
        requires
            old(self).wf(),
            old(self).current == old(self).start + 1,
            old(self).start < old(self).chars@.len(),
        ensures
            final(self).wf(),
            final(self).file == old(self).file,
            final(self).chars == old(self).chars,
            final(self).start == old(self).start,
            (match word_step(old(self).source(), old(self).start as int, old(self).line as int) {
                SpecStep::Emit(t, ni, nl) => {
                    &&& toks_view(final(self).tokens@) == toks_view(old(self).tokens@).push(t)
                    &&& final(self).current == ni
                    &&& final(self).line == nl
                },
                SpecStep::Skip(ni, nl) => false,
                SpecStep::Fail(e) => false,
            }),
    {
        let ghost s = self.chars@;
        let ghost b0 = self.current as int;
        let ghost self0 = *self;
        let ghost start0 = self.start;
        let ghost line0 = self.line;
        while !self.cursor_done() && char_is_alphanumeric(self.peek())
            invariant
                self.wf(),
                self.file == self0.file,
                self.chars == self0.chars,
                self.chars@ == s,
                self.tokens == self0.tokens,
                self.start == start0,
                self.line == line0,
                b0 <= self.current <= s.len(),
                word_end(s, b0) == word_end(s, self.current as int),
            decreases s.len() - self.current,
        {
            self.advance();
        }
        let f = self.file;
        let text = f.substring_char(self.start, self.current);
        let kind = TokenType::from(text);
        self.add_token(kind, Some(text), None);
    }

    /// Scans the single construct that starts at the cursor: appends one
    /// token, or skips whitespace or a line comment, or fails with the
    /// first lexical error. Takes exactly the step the model takes at this
    /// position.
    fn scan_tokens(&mut self) -> (r: Result<(), LexError>)
        requires
            old(self).wf(),
            old(self).start == old(self).current,
            old(self).current < old(self).chars@.len(),
        ensures
            final(self).wf(),
            final(self).file == old(self).file,
            final(self).chars == old(self).chars,
            (match scan_step(old(self).source(), old(self).current as int, old(self).line as int) {
                SpecStep::Emit(t, ni, nl) => {
                    &&& r is Ok
                    &&& toks_view(final(self).tokens@) == toks_view(old(self).tokens@).push(t)
                    &&& final(self).current == ni
                    &&& final(self).line == nl
                },
                SpecStep::Skip(ni, nl) => {
                    &&& r is Ok
                    &&& final(self).tokens == old(self).tokens
                    &&& final(self).current == ni
                    &&& final(self).line == nl
                },
                SpecStep::Fail(e) => {
                    &&& r is Err
                    &&& r->Err_0@ == e
                    &&& final(self).tokens == old(self).tokens
                },
            }),
    {
        let ghost s = self.chars@;
        let ghost i0 = self.current as int;
        let ghost l0 = self.line as int;
        let c = self.advance().unwrap();
        match c {
            '(' => {
                self.add_token(TokenType::LeftParenthesis, None, None);
                Ok(())
            },
            ')' => {
                self.add_token(TokenType::RightParenthesis, None, None);
                Ok(())
            },
            '{' => {
                self.add_token(TokenType::LeftBrace, None, None);
                Ok(())
            },
            '}' => {
                self.add_token(TokenType::RightBrace, None, None);
                Ok(())
            },
            ',' => {
                self.add_token(TokenType::Comma, None, None);
                Ok(())
            },
            '.' => {
                self.add_token(TokenType::Dot, None, None);
                Ok(())
            },
            '-' => {
                self.add_token(TokenType::Minus, None, None);
                Ok(())
            },
            '+' => {
                self.add_token(TokenType::Plus, None, None);
                Ok(())
            },
            ';' => {
                self.add_token(TokenType::Semicolon, None, None);
                Ok(())
            },
            '*' => {
                self.add_token(TokenType::Star, None, None);
                Ok(())
            },
            '!' => {
                if self.advance_if_matches('=') {
                    self.add_token(TokenType::BangEqual, None, None);
                } else {
                    self.add_token(TokenType::Bang, None, None);
                }
                Ok(())
            },
            '=' => {
                if self.advance_if_matches('=') {
                    self.add_token(TokenType::EqualEqual, None, None);
                } else {
                    self.add_token(TokenType::Equal, None, None);
                }
                Ok(())
            },
            '<' => {
                if self.advance_if_matches('=') {
                    self.add_token(TokenType::LessEqual, None, None);
                } else {
                    self.add_token(TokenType::Less, None, None);
                }
                Ok(())
            },
            '>' => {
                if self.advance_if_matches('=') {
                    self.add_token(TokenType::GreaterEqual, None, None);
                } else {
                    self.add_token(TokenType::Greater, None, None);
                }
                Ok(())
            },
            '/' => {
                if self.advance_if_matches('/') {
                    let ghost self0 = *self;
                    while self.peek() != '\n' && !self.cursor_done()
                        invariant
                            self.wf(),
                            self.file == self0.file,
                            self.chars == self0.chars,
                            self.chars@ == s,
                            self.tokens == self0.tokens,
                            self.start == self0.start,
                            self.line == self0.line,
                            i0 + 2 <= self.current <= s.len(),
                            line_comment_end(s, i0 + 2) == line_comment_end(
                                s,
                                self.current as int,
                            ),
                        decreases s.len() - self.current,
                    {
                        self.advance();
                    }
                } else {
                    self.add_token(TokenType::Slash, None, None);
                }
                Ok(())
            },
            ' ' | '\r' | '\t' => Ok(()),
            '\n' => {
                self.line = self.line + 1;
                Ok(())
            },
            '"' => self.string(),
            _ => {
                if is_ascii_digit_char(c) {
                    self.number();
                    Ok(())
                } else if char_is_alphabetic(c) {
                    self.identifier();
                    Ok(())
                } else {
                    let line = self.line;
                    Err(LexError::UnrecognizedCharacter { character: c, line })
                }
            },
        }
    }

    /// Runs the scan to completion, once, left to right. On success the
    /// token sequence is exactly what the model fixes for the source text
    /// and ends with exactly one end-of-input token; on the first lexical
    /// error the scan stops, the error is returned, and the tokens scanned
    /// before it remain valid and retrievable.
    pub fn scan(&mut self) -> (r: Result<(), LexError>)
        requires
            old(self).wf(),
            old(self).unscanned(),
        ensures
            final(self).wf(),
            final(self).source() == old(self).source(),
            final(self).emitted() == spec_scan(old(self).source()).0,
            (match spec_scan(old(self).source()).1 {
                None => r is Ok,
                Some(e) => r is Err && r->Err_0@ == e,
            }),
    {
        let ghost s = self.chars@;
        let ghost target = spec_scan(s);
        proof {
            assert(toks_view(self.tokens@) =~= Seq::<SpecToken>::empty());
            assert(toks_view(self.tokens@) + scan_at(s, 0, 1).0 =~= scan_at(s, 0, 1).0);
        }
        while !self.cursor_done()
            invariant
                self.wf(),
                self.file == old(self).file,
                self.chars == old(self).chars,
                self.chars@ == s,
                s == old(self).source(),
                target == spec_scan(s),
                toks_view(self.tokens@) + scan_at(s, self.current as int, self.line as int).0
                    == target.0,
                scan_at(s, self.current as int, self.line as int).1 == target.1,
            decreases s.len() - self.current,
        {
            self.start = self.current;
            let ghost i0 = self.current as int;
            let ghost l0 = self.line as int;
            let ghost prev = toks_view(self.tokens@);
            let res = self.scan_tokens();
            proof {
                lemma_scan_step_bounds(s, i0, l0);
                lemma_scan_at_step(s, i0, l0);
                match scan_step(s, i0, l0) {
                    SpecStep::Emit(t, ni, nl) => {
                        assert(prev + (seq![t] + scan_at(s, ni, nl).0) =~= prev.push(t) + scan_at(
                            s,
                            ni,
                            nl,
                        ).0);
                    },
                    SpecStep::Skip(ni, nl) => {},
                    SpecStep::Fail(e) => {
                        assert(toks_view(self.tokens@) + Seq::<SpecToken>::empty() =~= toks_view(
                            self.tokens@,
                        ));
                    },
                }
            }
            if let Err(e) = res {
                return Err(e);
            }
        }
        let ghost toks_before = self.tokens@;
        let line = self.line;
        let t = Token::new(TokenType::Eof, None, None, line);
        self.tokens.push(t);
        proof {
            lemma_toks_view_push(toks_before, t);
            assert(toks_view(toks_before) + seq![t@] =~= toks_view(toks_before).push(t@));
        }
        Ok(())
    }
}

} // verus!
