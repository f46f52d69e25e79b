//! The scanner: a mutable cursor over the input text that produces one
//! token per call, verified against the model in [`crate::scan`].

use vstd::prelude::*;
use vstd::string::StrSliceExecFns;
use crate::token::{Token, TokenType, TokenView};
use crate::scan::{
    end_of_input_token, lemma_scan_step_bounds, scan_step, spec_tokens, token_at,
};
use crate::scan::{
    char_is_alphabetic, char_is_alphanumeric, char_is_digit, char_is_whitespace, col_at,
    comment_end, identifier_end, is_digit_char, is_keyword, lemma_comment_end_bounds,
    lemma_number_end_bounds, lemma_position_bounds, lemma_skip_insignificant_bounds, line_at,
    number_end, skip_insignificant, string_close,
};

verus! {

/// The scanner.  It owns the input text and a cursor: the index of the next
/// unread character, with the 1-based line and column that index stands at.
pub struct Lexer {
    source: String,
    length: usize,
    position: usize,
    line: usize,
    column: usize,
}

impl Lexer {
    /// The input text.
    pub closed spec fn text(&self) -> Seq<char> {
        self.source@
    }

    /// The cursor: the index of the next unread character.
    pub closed spec fn pos(&self) -> int {
        self.position as int
    }

    /// The cursor's invariant: it never passes the end of the input, and the
    /// line and column counters always agree with the consumed prefix.
    pub closed spec fn wf(&self) -> bool {
        &&& self.length == self.source@.len()
        &&& self.source@.len() < usize::MAX
        &&& self.position <= self.length
        &&& self.line == line_at(self.source@, self.position as int)
        &&& self.column == col_at(self.source@, self.position as int)
    }

    /// Create a new scanner over the given source text, with the cursor at
    /// index 0, line 1, column 1.
    pub fn new(source: &str) -> (lexer: Lexer)
        requires
            source@.len() < usize::MAX,
        ensures
            lexer.wf(),
            lexer.text() == source@,
            lexer.pos() == 0,
    {
        let length = source.unicode_len();
        Lexer { source: source.to_owned(), length, position: 0, line: 1, column: 1 }
    }

    /// The current character, if any, without advancing.
    pub fn peek_current_char(&self) -> (r: Option<char>)
        requires
            self.wf(),
        ensures
            r == if self.pos() < self.text().len() {
                Some(self.text()[self.pos()])
            } else {
                None::<char>
            },
    {
        if self.position < self.length {
            Some(self.source.as_str().get_char(self.position))
        } else {
            None
        }
    }

    /// The character after the current one, if any, without advancing.
    pub fn peek_next_char(&self) -> (r: Option<char>)
        requires
            self.wf(),
        ensures
            r == if self.pos() + 1 < self.text().len() {
                Some(self.text()[self.pos() + 1])
            } else {
                None::<char>
            },
    {
        if self.position < self.length && self.position + 1 < self.length {
            Some(self.source.as_str().get_char(self.position + 1))
        } else {
            None
        }
    }

    /// Consume one character, keeping the line and column counters in step:
    /// consuming a newline starts a new line at column 1, consuming anything
    /// else moves one column to the right.
    pub fn advance(&mut self) -> (r: Option<char>)
        requires
            old(self).wf(),
        ensures
            final(self).wf(),
            final(self).text() == old(self).text(),
            old(self).pos() < old(self).text().len() ==> r == Some(
                old(self).text()[old(self).pos()],
            ) && final(self).pos() == old(self).pos() + 1,
            old(self).pos() >= old(self).text().len() ==> r == None::<char> && final(self).pos()
                == old(self).pos(),
    {
        let ch = self.peek_current_char();
        if let Some(c) = ch {
            proof {
                lemma_position_bounds(self.source@, self.position as int);
            }
            self.position = self.position + 1;
            if c == '\n' {
                self.line = self.line + 1;
                self.column = 1;
            } else {
                self.column = self.column + 1;
            }
        }
        ch
    }

    /// Consume the body of a block comment, the cursor standing just past
    /// the opening `/*`: everything through the next `*/` is consumed, or
    /// the whole rest of the input if no closer is found.
    fn skip_block_comment(&mut self)
        requires
            old(self).wf(),
        ensures
            final(self).wf(),
            final(self).text() == old(self).text(),
            final(self).pos() == comment_end(old(self).text(), old(self).pos()),
    {
        let ghost s = self.text();
        let ghost start = self.pos();
        loop
            invariant_except_break
                comment_end(s, self.pos()) == comment_end(s, start),
            invariant
                self.wf(),
                self.text() == s,
                start <= self.pos() <= s.len(),
            ensures
                self.wf(),
                self.text() == s,
                self.pos() == comment_end(s, start),
            decreases s.len() - self.pos(),
        {
            let current = self.peek_current_char();
            match current {
                None => {
                    break ;
                },
                Some(c) => {
                    if c == '*' {
                        let next = self.peek_next_char();
                        if next == Some('/') {
                            self.advance();
                            self.advance();
                            break ;
                        }
                    }
                    self.advance();
                },
            }
        }
    }

    /// Consume insignificant input: runs of whitespace and block comments,
    /// in any order, until a significant character (or the end of the
    /// input) is reached.
    fn skip_insignificant_input(&mut self)
        requires
            old(self).wf(),
        ensures
            final(self).wf(),
            final(self).text() == old(self).text(),
            final(self).pos() == skip_insignificant(old(self).text(), old(self).pos()),
    {
        let ghost s = self.text();
        let ghost start = self.pos();
        loop
            invariant
                self.wf(),
                self.text() == s,
                start <= self.pos() <= s.len(),
                skip_insignificant(s, self.pos()) == skip_insignificant(s, start),
            ensures
                self.wf(),
                self.text() == s,
                self.pos() == skip_insignificant(s, start),
            decreases s.len() - self.pos(),
        {
            let current = self.peek_current_char();
            match current {
                None => {
                    break ;
                },
                Some(c) => {
                    if char_is_whitespace(c) {
                        self.advance();
                    } else {
                        let next = self.peek_next_char();
                        if c == '/' && next == Some('*') {
                            let ghost before = self.pos();
                            self.advance();
                            self.advance();
                            self.skip_block_comment();
                            proof {
                                lemma_comment_end_bounds(s, before + 2);
                            }
                        } else {
                            break ;
                        }
                    }
                },
            }
        }
    }

    /// Consume an identifier: the character under the cursor, then the
    /// maximal run of alphanumerics, underscores and hyphens after it.
    /// Returns the consumed text.
    pub fn read_identifier(&mut self) -> (r: String)
        requires
            old(self).wf(),
            old(self).pos() < old(self).text().len(),
        ensures
            final(self).wf(),
            final(self).text() == old(self).text(),
            final(self).pos() == identifier_end(old(self).text(), old(self).pos() + 1),
            old(self).pos() < final(self).pos(),
            r@ == old(self).text().subrange(old(self).pos(), final(self).pos()),
    {
        let ghost s = self.text();
        let start = self.position;
        self.advance();
        loop
            invariant
                self.wf(),
                self.text() == s,
                start + 1 <= self.pos() <= s.len(),
                identifier_end(s, self.pos()) == identifier_end(s, start + 1),
            ensures
                self.wf(),
                self.text() == s,
                self.pos() == identifier_end(s, start + 1),
            decreases s.len() - self.pos(),
        {
            let current = self.peek_current_char();
            match current {
                None => {
                    break ;
                },
                Some(c) => {
                    if char_is_alphanumeric(c) || c == '_' || c == '-' {
                        self.advance();
                    } else {
                        break ;
                    }
                },
            }
        }
        self.source.as_str().substring_char(start, self.position).to_owned()
    }

    /// Consume a numeric literal: a maximal run of decimal digits with at
    /// most one embedded decimal point.  A second `.` ends the number and is
    /// left for the next token.  Returns the consumed raw text.
    pub fn read_number(&mut self) -> (r: String)
        requires
            old(self).wf(),
            old(self).pos() < old(self).text().len(),
            is_digit_char(old(self).text()[old(self).pos()]),
        ensures
            final(self).wf(),
            final(self).text() == old(self).text(),
            final(self).pos() == number_end(old(self).text(), old(self).pos(), false),
            old(self).pos() < final(self).pos(),
            r@ == old(self).text().subrange(old(self).pos(), final(self).pos()),
    {
        let ghost s = self.text();
        let start = self.position;
        let mut seen_dot = false;
        loop
            invariant
                self.wf(),
                self.text() == s,
                start <= self.pos() <= s.len(),
                self.pos() == start ==> !seen_dot,
                number_end(s, self.pos(), seen_dot) == number_end(s, start as int, false),
            ensures
                self.wf(),
                self.text() == s,
                self.pos() == number_end(s, start as int, false),
            decreases s.len() - self.pos(),
        {
            let current = self.peek_current_char();
            match current {
                None => {
                    break ;
                },
                Some(c) => {
                    if char_is_digit(c) {
                        self.advance();
                    } else if c == '.' && !seen_dot {
                        seen_dot = true;
                        self.advance();
                    } else {
                        break ;
                    }
                },
            }
        }
        proof {
            assert(number_end(s, start as int, false) == number_end(s, start + 1, false));
            lemma_number_end_bounds(s, start + 1, false);
        }
        self.source.as_str().substring_char(start, self.position).to_owned()
    }

    /// Consume a string literal, the cursor standing on the opening quote.
    /// The content runs to the next double-quote — which is consumed but not
    /// part of the content — or to the end of the input if the literal is
    /// unterminated.  Returns the content.
    pub fn read_string_literal(&mut self) -> (r: String)
        requires
            old(self).wf(),
            old(self).pos() < old(self).text().len(),
        ensures
            final(self).wf(),
            final(self).text() == old(self).text(),
            ({
                let close = string_close(old(self).text(), old(self).pos() + 1);
                &&& r@ == old(self).text().subrange(old(self).pos() + 1, close)
                &&& final(self).pos() == if close < old(self).text().len() {
                    close + 1
                } else {
                    close
                }
            }),
            old(self).pos() < final(self).pos(),
    {
        let ghost s = self.text();
        self.advance();
        let content_start = self.position;
        loop
            invariant
                self.wf(),
                self.text() == s,
                content_start <= self.pos() <= s.len(),
                string_close(s, self.pos()) == string_close(s, content_start as int),
            ensures
                self.wf(),
                self.text() == s,
                self.pos() == string_close(s, content_start as int),
            decreases s.len() - self.pos(),
        {
            let current = self.peek_current_char();
            match current {
                None => {
                    break ;
                },
                Some(c) => {
                    if c == '"' {
                        break ;
                    }
                    self.advance();
                },
            }
        }
        let content = self.source.as_str().substring_char(content_start, self.position).to_owned();
        if self.position < self.length {
            self.advance();
        }
        content
    }

    /// Whether the cursor has consumed the entire input.
    pub fn is_at_end(&self) -> (r: bool)
        requires
            self.wf(),
        ensures
            r == (self.pos() == self.text().len()),
    {
        self.position >= self.length
    }

    /// Produce the next token: skip insignificant input, then classify by
    /// the first significant character, with one character of lookahead for
    /// the two-character operators.  Once the input is exhausted, every call
    /// returns an `EndOfInput` token stamped with the final position, and
    /// the cursor does not move further.
    pub fn next_token(&mut self) -> (t: Token)
        requires
            old(self).wf(),
        ensures
            final(self).wf(),
            final(self).text() == old(self).text(),
            t@ == scan_step(old(self).text(), old(self).pos()).token,
            final(self).pos() == scan_step(old(self).text(), old(self).pos()).end,
    {
        let ghost s = self.text();
        let ghost entry = self.pos();
        self.skip_insignificant_input();
        proof {
            lemma_skip_insignificant_bounds(s, entry);
        }
        let ghost j = self.pos();
        if self.is_at_end() {
            let t = Token {
                value: String::new(),
                token_type: TokenType::EndOfInput,
                line: self.line,
                column: self.column,
            };
            proof {
                assert(t@ =~= end_of_input_token(s, j));
            }
            return t;
        }
        let line = self.line;
        let column = self.column;
        let c = self.peek_current_char().unwrap();
        if char_is_alphabetic(c) || c == '_' {
            let ident = self.read_identifier();
            let token_type = if is_keyword_text(&ident) {
                TokenType::Keyword(ident.clone())
            } else {
                TokenType::Identifier(ident.clone())
            };
            let t = Token { value: ident, token_type, line, column };
            proof {
                assert(t@ =~= token_at(s, j).token);
            }
            t
        } else if char_is_digit(c) {
            let number = self.read_number();
            let t = Token {
                value: number.clone(),
                token_type: TokenType::Number(number),
                line,
                column,
            };
            proof {
                assert(t@ =~= token_at(s, j).token);
            }
            t
        } else if c == '"' {
            let content = self.read_string_literal();
            let t = Token {
                value: content.clone(),
                token_type: TokenType::StringLiteral(content),
                line,
                column,
            };
            proof {
                assert(t@ =~= token_at(s, j).token);
            }
            t
        } else {
            let start = self.position;
            self.advance();
            let mut two = false;
            if c == '=' || c == '!' || c == '<' || c == '>' {
                let next = self.peek_current_char();
                if next == Some('=') {
                    self.advance();
                    two = true;
                }
            }
            let token_type = if two {
                if c == '=' {
                    TokenType::EqualsTo
                } else if c == '!' {
                    TokenType::NotEqualsTo
                } else if c == '<' {
                    TokenType::LessOrEqual
                } else {
                    TokenType::GreaterOrEqual
                }
            } else {
                if c == '=' {
                    TokenType::Equals
                } else if c == '!' {
                    TokenType::Not
                } else if c == '<' {
                    TokenType::LessThan
                } else if c == '>' {
                    TokenType::GreaterThan
                } else if c == ',' {
                    TokenType::Comma
                } else if c == ';' {
                    TokenType::Semicolon
                } else if c == '(' {
                    TokenType::LParen
                } else if c == ')' {
                    TokenType::RParen
                } else if c == '{' {
                    TokenType::LBrace
                } else if c == '}' {
                    TokenType::RBrace
                } else {
                    TokenType::Illegal(c)
                }
            };
            let value = self.source.as_str().substring_char(start, self.position).to_owned();
            let t = Token { value, token_type, line, column };
            proof {
                assert(t@ =~= token_at(s, j).token);
            }
            t
        }
    }
}

/// Whether the text is one of the fixed keywords.
fn is_keyword_text(w: &String) -> (r: bool)
    ensures
        r == is_keyword(w@),
{
    let def_kw: String = "def".to_owned();
    let header_kw: String = "header".to_owned();
    let body_kw: String = "body".to_owned();
    *w == def_kw || *w == header_kw || *w == body_kw
}

/// The views of a sequence of tokens.
pub open spec fn tokens_view(ts: Seq<Token>) -> Seq<TokenView> {
    ts.map_values(|t: Token| t@)
}

/// Scan the whole input into its token sequence: every token in order,
/// ending with — and only with — the terminal `EndOfInput` token.
pub fn tokenize(source_code: &str) -> (tokens: Vec<Token>)
    requires
        source_code@.len() < usize::MAX,
    ensures
        tokens_view(tokens@) == spec_tokens(source_code@, 0),
{
    let ghost s = source_code@;
    let mut tokens: Vec<Token> = Vec::new();
    let mut lexer = Lexer::new(source_code);
    proof {
        assert(tokens_view(tokens@) + spec_tokens(s, 0) =~= spec_tokens(s, 0));
    }
    loop
        invariant_except_break
            spec_tokens(s, 0) == tokens_view(tokens@) + spec_tokens(s, lexer.pos()),
        invariant
            lexer.wf(),
            lexer.text() == s,
        ensures
            tokens_view(tokens@) == spec_tokens(s, 0),
        decreases s.len() - lexer.pos(),
    {
        let ghost pos = lexer.pos();
        let token = lexer.next_token();
        proof {
            lemma_scan_step_bounds(s, pos);
        }
        let is_end = matches!(token.token_type, TokenType::EndOfInput);
        let ghost tv = token@;
        let ghost prev = tokens@;
        tokens.push(token);
        proof {
            let step = scan_step(s, pos);
            assert(tokens_view(tokens@) =~= tokens_view(prev) + seq![tv]);
            if step.token.token_type is EndOfInput {
                assert(spec_tokens(s, pos) == seq![step.token]);
                assert(tokens_view(tokens@) =~= tokens_view(prev) + spec_tokens(s, pos));
            } else {
                assert(spec_tokens(s, pos) == seq![step.token] + spec_tokens(s, step.end));
                assert(tokens_view(prev) + spec_tokens(s, pos) =~= (tokens_view(prev) + seq![tv])
                    + spec_tokens(s, step.end));
            }
        }
        if is_end {
            break ;
        }
    }
    tokens
}

} // verus!
