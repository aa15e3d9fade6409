//! The token data model: the closed set of token categories, the token
//! record itself, the lexical error values, and the classification of a
//! spelling into a keyword category or the generic identifier category.

use vstd::prelude::*;
use vstd::string::StrSliceExecFns;

verus! {

/// The closed set of lexical categories a token can have: single-character
/// punctuation and operators, one-or-two-character operators, the literal
/// categories, the reserved keywords, and the terminal end-of-input marker.
#[derive(Clone, Copy, Debug, PartialEq, Eq, Structural)]
pub enum TokenType {
    LeftParenthesis,
    RightParenthesis,
    LeftBrace,
    RightBrace,
    Comma,
    Dot,
    Minus,
    Plus,
    Semicolon,
    Slash,
    Star,
    Bang,
    BangEqual,
    Equal,
    EqualEqual,
    Greater,
    GreaterEqual,
    Less,
    LessEqual,
    Identifier,
    String,
    Number,
    And,
    Class,
    Else,
    False,
    Fun,
    For,
    If,
    Nil,
    Or,
    Print,
    Return,
    Super,
    This,
    True,
    Var,
    While,
    Eof,
}

/// The category an exactly matched spelling maps to: the spelling of a
/// punctuation mark, an operator, or a reserved keyword (matched
/// case-sensitively) maps to that category; any other text maps to the
/// generic identifier category. Total, with no error case.
pub open spec fn spec_token_type_of(w: Seq<char>) -> TokenType {
    if w == "("@ {
        TokenType::LeftParenthesis
    } else if w == ")"@ {
        TokenType::RightParenthesis
    } else if w == "{"@ {
        TokenType::LeftBrace
    } else if w == "}"@ {
        TokenType::RightBrace
    } else if w == ","@ {
        TokenType::Comma
    } else if w == "."@ {
        TokenType::Dot
    } else if w == "-"@ {
        TokenType::Minus
    } else if w == "+"@ {
        TokenType::Plus
    } else if w == ";"@ {
        TokenType::Semicolon
    } else if w == "/"@ {
        TokenType::Slash
    } else if w == "*"@ {
        TokenType::Star
    } else if w == "!"@ {
        TokenType::Bang
    } else if w == "!="@ {
        TokenType::BangEqual
    } else if w == "="@ {
        TokenType::Equal
    } else if w == "=="@ {
        TokenType::EqualEqual
    } else if w == ">"@ {
        TokenType::Greater
    } else if w == ">="@ {
        TokenType::GreaterEqual
    } else if w == "<"@ {
        TokenType::Less
    } else if w == "<="@ {
        TokenType::LessEqual
    } else if w == "and"@ {
        TokenType::And
    } else if w == "class"@ {
        TokenType::Class
    } else if w == "else"@ {
        TokenType::Else
    } else if w == "false"@ {
        TokenType::False
    } else if w == "fun"@ {
        TokenType::Fun
    } else if w == "for"@ {
        TokenType::For
    } else if w == "if"@ {
        TokenType::If
    } else if w == "nil"@ {
        TokenType::Nil
    } else if w == "or"@ {
        TokenType::Or
    } else if w == "print"@ {
        TokenType::Print
    } else if w == "return"@ {
        TokenType::Return
    } else if w == "super"@ {
        TokenType::Super
    } else if w == "this"@ {
        TokenType::This
    } else if w == "true"@ {
        TokenType::True
    } else if w == "var"@ {
        TokenType::Var
    } else if w == "while"@ {
        TokenType::While
    } else {
        TokenType::Identifier
    }
}

/// Whether `w` is one of the spellings the classification maps to a
/// category of its own rather than to the generic identifier category.
pub open spec fn fixed_spelling(w: Seq<char>) -> bool {
    ||| w == "("@
    ||| w == ")"@
    ||| w == "{"@
    ||| w == "}"@
    ||| w == ","@
    ||| w == "."@
    ||| w == "-"@
    ||| w == "+"@
    ||| w == ";"@
    ||| w == "/"@
    ||| w == "*"@
    ||| w == "!"@
    ||| w == "!="@
    ||| w == "="@
    ||| w == "=="@
    ||| w == ">"@
    ||| w == ">="@
    ||| w == "<"@
    ||| w == "<="@
    ||| w == "and"@
    ||| w == "class"@
    ||| w == "else"@
    ||| w == "false"@
    ||| w == "fun"@
    ||| w == "for"@
    ||| w == "if"@
    ||| w == "nil"@
    ||| w == "or"@
    ||| w == "print"@
    ||| w == "return"@
    ||| w == "super"@
    ||| w == "this"@
    ||| w == "true"@
    ||| w == "var"@
    ||| w == "while"@
}

/// Whether two string slices hold the same sequence of characters.
fn str_eq(a: &str, b: &str) -> (r: bool)
    ensures
        r == (a@ == b@),
{
    let a_len = a.unicode_len();
    let b_len = b.unicode_len();
    if a_len != b_len {
        return false;
    }
    let mut i: usize = 0;
    while i < a_len
        invariant
            a@.len() == a_len,
            b@.len() == b_len,
            a_len == b_len,
            i <= a_len,
            forall|j: int| 0 <= j < i ==> a@[j] == b@[j],
        decreases a_len - i,
    {
        if a.get_char(i) != b.get_char(i) {
            return false;
        }
        i = i + 1;
    }
    proof {
        assert(a@ =~= b@);
    }
    true
}

impl<'a> vstd::std_specs::convert::FromSpecImpl<&'a str> for TokenType {
    open spec fn obeys_from_spec() -> bool {
        true
    }

    open spec fn from_spec(v: &'a str) -> TokenType {
        spec_token_type_of(v@)
    }
}

impl<'a> From<&'a str> for TokenType {
    /// Classifies a spelling into its token category, falling back to the
    /// generic identifier category for any unmatched text.
    fn from(value: &'a str) -> (r: TokenType) {
        if str_eq(value, "(") {
            TokenType::LeftParenthesis
        } else if str_eq(value, ")") {
            TokenType::RightParenthesis
        } else if str_eq(value, "{") {
            TokenType::LeftBrace
        } else if str_eq(value, "}") {
            TokenType::RightBrace
        } else if str_eq(value, ",") {
            TokenType::Comma
        } else if str_eq(value, ".") {
            TokenType::Dot
        } else if str_eq(value, "-") {
            TokenType::Minus
        } else if str_eq(value, "+") {
            TokenType::Plus
        } else if str_eq(value, ";") {
            TokenType::Semicolon
        } else if str_eq(value, "/") {
            TokenType::Slash
        } else if str_eq(value, "*") {
            TokenType::Star
        } else if str_eq(value, "!") {
            TokenType::Bang
        } else if str_eq(value, "!=") {
            TokenType::BangEqual
        } else if str_eq(value, "=") {
            TokenType::Equal
        } else if str_eq(value, "==") {
            TokenType::EqualEqual
        } else if str_eq(value, ">") {
            TokenType::Greater
        } else if str_eq(value, ">=") {
            TokenType::GreaterEqual
        } else if str_eq(value, "<") {
            TokenType::Less
        } else if str_eq(value, "<=") {
            TokenType::LessEqual
        } else if str_eq(value, "and") {
            TokenType::And
        } else if str_eq(value, "class") {
            TokenType::Class
        } else if str_eq(value, "else") {
            TokenType::Else
        } else if str_eq(value, "false") {
            TokenType::False
        } else if str_eq(value, "fun") {
            TokenType::Fun
        } else if str_eq(value, "for") {
            TokenType::For
        } else if str_eq(value, "if") {
            TokenType::If
        } else if str_eq(value, "nil") {
            TokenType::Nil
        } else if str_eq(value, "or") {
            TokenType::Or
        } else if str_eq(value, "print") {
            TokenType::Print
        } else if str_eq(value, "return") {
            TokenType::Return
        } else if str_eq(value, "super") {
            TokenType::Super
        } else if str_eq(value, "this") {
            TokenType::This
        } else if str_eq(value, "true") {
            TokenType::True
        } else if str_eq(value, "var") {
            TokenType::Var
        } else if str_eq(value, "while") {
            TokenType::While
        } else {
            TokenType::Identifier
        }
    }
}

/// The mathematical image of a token: its category, its text fields as
/// character sequences, and the 1-based line its first character stands on.
pub ghost struct SpecToken {
    pub token_type: TokenType,
    pub lexeme: Option<Seq<char>>,
    pub literal: Option<Seq<char>>,
    pub line: int,
}

/// The character sequence behind an optional string slice.
pub open spec fn view_opt_str(o: Option<&str>) -> Option<Seq<char>> {
    match o {
        Option::Some(s) => Option::Some(s@),
        Option::None => Option::None,
    }
}

/// A classified, located fragment of source text, immutable once built.
/// `lexeme` is the raw text the token was scanned from; `literal` is present
/// only for string tokens and holds the quoted text including both quotes,
/// while the string token's `lexeme` holds the text between the quotes.
#[derive(Debug, PartialEq)]
pub struct Token<'a> {
    token_type: TokenType,
    lexeme: Option<&'a str>,
    literal: Option<&'a str>,
    line: usize,
}

impl<'a> View for Token<'a> {
    type V = SpecToken;

    closed spec fn view(&self) -> SpecToken {
        SpecToken {
            token_type: self.token_type,
            lexeme: view_opt_str(self.lexeme),
            literal: view_opt_str(self.literal),
            line: self.line as int,
        }
    }
}

impl<'a> Token<'a> {
    /// Builds a token; every field is fixed at construction.
    pub fn new(
        token_type: TokenType,
        lexeme: Option<&'a str>,
        literal: Option<&'a str>,
        line: usize,
    ) -> (t: Token<'a>)
        ensures
            t@ == (SpecToken {
                token_type,
                lexeme: view_opt_str(lexeme),
                literal: view_opt_str(literal),
                line: line as int,
            }),
    {
        Token { token_type, lexeme, literal, line }
    }
}

/// A fatal lexical error; the scan stops at the first one, and the tokens
/// scanned before it remain valid.
#[derive(Clone, Copy, Debug, PartialEq, Eq, Structural)]
pub enum LexError {
    /// Input ended inside a string literal. Carries the line the literal
    /// began on.
    UnterminatedString { line: usize },
    /// A character that starts no token and is not whitespace. Carries the
    /// offending character and its line.
    UnrecognizedCharacter { character: char, line: usize },
}

/// The mathematical image of a lexical error, with an unbounded line number.
pub ghost enum SpecLexError {
    UnterminatedString { line: int },
    UnrecognizedCharacter { character: char, line: int },
}

impl View for LexError {
    type V = SpecLexError;

    open spec fn view(&self) -> SpecLexError {
        match *self {
            LexError::UnterminatedString { line } => SpecLexError::UnterminatedString {
                line: line as int,
            },
            LexError::UnrecognizedCharacter { character, line } => SpecLexError::UnrecognizedCharacter {
                character,
                line: line as int,
            },
        }
    }
}

} // verus!
