//! The token model: lexical categories and the positioned token record.

use vstd::prelude::*;
use vstd::string::{StrSliceExecFns, StringExecFns};

verus! {

/// The closed set of lexical categories.  Variable-content categories carry
/// their payload: keywords, identifiers and string literals carry the text,
/// numbers carry the raw numeric text as it stood in the input, and an
/// illegal token carries the one unrecognized character.
#[derive(Debug, Clone, PartialEq, Eq)]
pub enum TokenType {
    /// A reserved word: `def`, `header` or `body`.
    Keyword(String),
    /// Any other identifier-shaped run of characters.
    Identifier(String),
    /// A string literal; the payload is the content between the quotes.
    StringLiteral(String),
    /// A numeric literal; the payload is the raw numeric text
    /// (digits with at most one embedded decimal point).
    Number(String),
    /// `=`
    Equals,
    /// `,`
    Comma,
    /// `;`
    Semicolon,
    /// `(`
    LParen,
    /// `)`
    RParen,
    /// `{`
    LBrace,
    /// `}`
    RBrace,
    /// `!`
    Not,
    /// `==`
    EqualsTo,
    /// `!=`
    NotEqualsTo,
    /// `<`
    LessThan,
    /// `>`
    GreaterThan,
    /// `<=`
    LessOrEqual,
    /// `>=`
    GreaterOrEqual,
    /// The sentinel token marking exhaustion of the input.
    EndOfInput,
    /// One unrecognized character, reported without aborting the scan.
    Illegal(char),
}

/// The mathematical shape of a `TokenType`: text payloads as
/// character sequences.
#[verifier::ext_equal]
pub enum TokenTypeView {
    Keyword(Seq<char>),
    Identifier(Seq<char>),
    StringLiteral(Seq<char>),
    Number(Seq<char>),
    Equals,
    Comma,
    Semicolon,
    LParen,
    RParen,
    LBrace,
    RBrace,
    Not,
    EqualsTo,
    NotEqualsTo,
    LessThan,
    GreaterThan,
    LessOrEqual,
    GreaterOrEqual,
    EndOfInput,
    Illegal(char),
}

impl View for TokenType {
    type V = TokenTypeView;

    open spec fn view(&self) -> TokenTypeView {
        match self {
            TokenType::Keyword(w) => TokenTypeView::Keyword(w@),
            TokenType::Identifier(w) => TokenTypeView::Identifier(w@),
            TokenType::StringLiteral(w) => TokenTypeView::StringLiteral(w@),
            TokenType::Number(w) => TokenTypeView::Number(w@),
            TokenType::Equals => TokenTypeView::Equals,
            TokenType::Comma => TokenTypeView::Comma,
            TokenType::Semicolon => TokenTypeView::Semicolon,
            TokenType::LParen => TokenTypeView::LParen,
            TokenType::RParen => TokenTypeView::RParen,
            TokenType::LBrace => TokenTypeView::LBrace,
            TokenType::RBrace => TokenTypeView::RBrace,
            TokenType::Not => TokenTypeView::Not,
            TokenType::EqualsTo => TokenTypeView::EqualsTo,
            TokenType::NotEqualsTo => TokenTypeView::NotEqualsTo,
            TokenType::LessThan => TokenTypeView::LessThan,
            TokenType::GreaterThan => TokenTypeView::GreaterThan,
            TokenType::LessOrEqual => TokenTypeView::LessOrEqual,
            TokenType::GreaterOrEqual => TokenTypeView::GreaterOrEqual,
            TokenType::EndOfInput => TokenTypeView::EndOfInput,
            TokenType::Illegal(c) => TokenTypeView::Illegal(*c),
        }
    }
}

/// One classified, positioned unit of lexical input.
///
/// `value` is the exact text that produced the token (for a string literal,
/// the content between the quotes; empty for the end-of-input token), and
/// `line`/`column` are the 1-based position of the token's first character.
#[derive(Debug, Clone, PartialEq, Eq)]
pub struct Token {
    pub value: String,
    pub token_type: TokenType,
    pub line: usize,
    pub column: usize,
}

/// The mathematical shape of a `Token`.
#[verifier::ext_equal]
pub struct TokenView {
    pub value: Seq<char>,
    pub token_type: TokenTypeView,
    pub line: int,
    pub column: int,
}

impl View for Token {
    type V = TokenView;

    open spec fn view(&self) -> TokenView {
        TokenView {
            value: self.value@,
            token_type: self.token_type@,
            line: self.line as int,
            column: self.column as int,
        }
    }
}

// ---------------------------------------------------------------------------
// Display forms for diagnostics
// ---------------------------------------------------------------------------

/// The character for one decimal digit.
pub open spec fn digit_char(d: nat) -> char {
    if d == 0 {
        '0'
    } else if d == 1 {
        '1'
    } else if d == 2 {
        '2'
    } else if d == 3 {
        '3'
    } else if d == 4 {
        '4'
    } else if d == 5 {
        '5'
    } else if d == 6 {
        '6'
    } else if d == 7 {
        '7'
    } else if d == 8 {
        '8'
    } else {
        '9'
    }
}

/// The decimal digits of `n`, most significant first.
pub open spec fn decimal_digits(n: nat) -> Seq<char>
    decreases n,
{
    if n < 10 {
        seq![digit_char(n)]
    } else {
        decimal_digits(n / 10) + seq![digit_char(n % 10)]
    }
}

/// One decimal digit as a one-character piece of text.
fn decimal_digit_str(d: u64) -> (r: &'static str)
    requires
        d < 10,
    ensures
        r@ == seq![digit_char(d as nat)],
{
    if d == 0 {
        proof {
            reveal_strlit("0");
            assert("0"@ =~= seq![digit_char(0)]);
        }
        "0"
    } else if d == 1 {
        proof {
            reveal_strlit("1");
            assert("1"@ =~= seq![digit_char(1)]);
        }
        "1"
    } else if d == 2 {
        proof {
            reveal_strlit("2");
            assert("2"@ =~= seq![digit_char(2)]);
        }
        "2"
    } else if d == 3 {
        proof {
            reveal_strlit("3");
            assert("3"@ =~= seq![digit_char(3)]);
        }
        "3"
    } else if d == 4 {
        proof {
            reveal_strlit("4");
            assert("4"@ =~= seq![digit_char(4)]);
        }
        "4"
    } else if d == 5 {
        proof {
            reveal_strlit("5");
            assert("5"@ =~= seq![digit_char(5)]);
        }
        "5"
    } else if d == 6 {
        proof {
            reveal_strlit("6");
            assert("6"@ =~= seq![digit_char(6)]);
        }
        "6"
    } else if d == 7 {
        proof {
            reveal_strlit("7");
            assert("7"@ =~= seq![digit_char(7)]);
        }
        "7"
    } else if d == 8 {
        proof {
            reveal_strlit("8");
            assert("8"@ =~= seq![digit_char(8)]);
        }
        "8"
    } else {
        proof {
            reveal_strlit("9");
            assert("9"@ =~= seq![digit_char(9)]);
        }
        "9"
    }
}

/// The decimal text of `n`.
pub fn u64_to_decimal(n: u64) -> (r: String)
    ensures
        r@ == decimal_digits(n as nat),
    decreases n,
{
    if n < 10 {
        decimal_digit_str(n).to_owned()
    } else {
        assert(n / 10 < n) by (nonlinear_arith)
            requires
                n >= 10,
        ;
        let mut r = u64_to_decimal(n / 10);
        r.append(decimal_digit_str(n % 10));
        r
    }
}

/// The display name of each lexical category.
pub open spec fn category_name(t: TokenTypeView) -> Seq<char> {
    match t {
        TokenTypeView::Keyword(_) => "Keyword"@,
        TokenTypeView::Identifier(_) => "Identifier"@,
        TokenTypeView::StringLiteral(_) => "StringLiteral"@,
        TokenTypeView::Number(_) => "Number"@,
        TokenTypeView::Equals => "Equals"@,
        TokenTypeView::Comma => "Comma"@,
        TokenTypeView::Semicolon => "Semicolon"@,
        TokenTypeView::LParen => "LParen"@,
        TokenTypeView::RParen => "RParen"@,
        TokenTypeView::LBrace => "LBrace"@,
        TokenTypeView::RBrace => "RBrace"@,
        TokenTypeView::Not => "Not"@,
        TokenTypeView::EqualsTo => "EqualsTo"@,
        TokenTypeView::NotEqualsTo => "NotEqualsTo"@,
        TokenTypeView::LessThan => "LessThan"@,
        TokenTypeView::GreaterThan => "GreaterThan"@,
        TokenTypeView::LessOrEqual => "LessOrEqual"@,
        TokenTypeView::GreaterOrEqual => "GreaterOrEqual"@,
        TokenTypeView::EndOfInput => "EndOfInput"@,
        TokenTypeView::Illegal(_) => "Illegal"@,
    }
}

impl TokenType {
    /// The category's display name, used for diagnostics and pretty-printing.
    pub fn display_name(&self) -> (r: &'static str)
        ensures
            r@ == category_name(self@),
    {
        match self {
            TokenType::Keyword(_) => "Keyword",
            TokenType::Identifier(_) => "Identifier",
            TokenType::StringLiteral(_) => "StringLiteral",
            TokenType::Number(_) => "Number",
            TokenType::Equals => "Equals",
            TokenType::Comma => "Comma",
            TokenType::Semicolon => "Semicolon",
            TokenType::LParen => "LParen",
            TokenType::RParen => "RParen",
            TokenType::LBrace => "LBrace",
            TokenType::RBrace => "RBrace",
            TokenType::Not => "Not",
            TokenType::EqualsTo => "EqualsTo",
            TokenType::NotEqualsTo => "NotEqualsTo",
            TokenType::LessThan => "LessThan",
            TokenType::GreaterThan => "GreaterThan",
            TokenType::LessOrEqual => "LessOrEqual",
            TokenType::GreaterOrEqual => "GreaterOrEqual",
            TokenType::EndOfInput => "EndOfInput",
            TokenType::Illegal(_) => "Illegal",
        }
    }
}

/// The display form of a token: `[Category] 'raw-text' at line L, column C`.
pub open spec fn token_display(t: TokenView) -> Seq<char> {
    "["@ + category_name(t.token_type) + "] '"@ + t.value + "' at line "@ + decimal_digits(
        t.line as nat,
    ) + ", column "@ + decimal_digits(t.column as nat)
}

impl Token {
    /// The token's readable form, e.g. `[Keyword] 'def' at line 1, column 5`,
    /// used for diagnostics and pretty-printing.
    pub fn display_string(&self) -> (r: String)
        ensures
            r@ == token_display(self@),
    {
        let mut r: String = "[".to_owned();
        r.append(self.token_type.display_name());
        r.append("] '");
        r.append(self.value.as_str());
        r.append("' at line ");
        let line_text = u64_to_decimal(self.line as u64);
        r.append(line_text.as_str());
        r.append(", column ");
        let column_text = u64_to_decimal(self.column as u64);
        r.append(column_text.as_str());
        proof {
            assert(r@ =~= token_display(self@));
        }
        r
    }
}

} // verus!
