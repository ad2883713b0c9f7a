//! The scanner: owns the source text and cursor state, and produces the
//! token sequence by repeated single-lexeme recognition, exactly as the
//! model in [`crate::model`] describes.

use vstd::prelude::*;

use crate::model::block_comment_end;
use crate::model::identifier_step;
use crate::model::is_digit;
use crate::model::is_ident_continue;
use crate::model::is_ident_start;
use crate::model::keyword_kind;
use crate::model::newlines_in;
use crate::model::number_step;
use crate::model::opt_seq;
use crate::model::run_end;
use crate::model::scan_rest;
use crate::model::step;
use crate::model::string_step;
use crate::model_lemmas::lemma_block_comment_end;
use crate::model_lemmas::lemma_run_end;
use crate::model_lemmas::lemma_scan_rest_unfold;
use crate::model_lemmas::lemma_step_basics;
use crate::token::ErrorModel;
use crate::token::LoxError;
use crate::token::Object;
use crate::token::Token;
use crate::token::TokenModel;
use crate::token::TokenType;
use crate::string_util::text_eq;
use vstd::string::StrSliceExecFns;
use vstd::string::StringExecFns;

verus! {

/// An ASCII decimal digit (executable form of [`is_digit`]).
pub fn is_digit_char(c: char) -> (r: bool)
    ensures
        r == is_digit(c),
{
    ('0' as u32) <= (c as u32) && (c as u32) <= ('9' as u32)
}

/// An ASCII letter or underscore (executable form of [`is_ident_start`]).
pub fn is_ident_start_char(c: char) -> (r: bool)
    ensures
        r == is_ident_start(c),
{
    (('a' as u32) <= (c as u32) && (c as u32) <= ('z' as u32)) || (('A' as u32) <= (c as u32) && (c
        as u32) <= ('Z' as u32)) || c == '_'
}

/// A letter, digit or underscore (executable form of
/// [`is_ident_continue`]).
pub fn is_ident_continue_char(c: char) -> (r: bool)
    ensures
        r == is_ident_continue(c),
{
    is_ident_start_char(c) || is_digit_char(c)
}

/// The scanner state: the full source as a character-indexed text, the
/// token and error accumulators, the start of the lexeme being recognized,
/// the cursor, and the current 1-based line.
pub struct Scanner {
    pub source: String,
    pub tokens: Vec<Token>,
    pub errors: Vec<LoxError>,
    pub start: usize,
    pub current: usize,
    pub line: usize,
}

impl Scanner {
    /// The source text as a sequence of characters.
    pub open spec fn src(&self) -> Seq<char> {
        self.source@
    }

    /// The models of the tokens accumulated so far, in source order.
    pub open spec fn toks(&self) -> Seq<TokenModel> {
        self.tokens@.map_values(|t: Token| t@)
    }

    /// The models of the errors reported so far, in source order.
    pub open spec fn errs(&self) -> Seq<ErrorModel> {
        self.errors@.map_values(|e: LoxError| e@)
    }

    /// Well-formedness: the cursor stays inside the text, the line counter
    /// is 1-based and can only have grown by the characters consumed, and
    /// the text leaves room for the cursor arithmetic of a scan.
    pub open spec fn wf(&self) -> bool {
        &&& self.current <= self.source@.len()
        &&& self.source@.len() < usize::MAX
        &&& 1 <= self.line
        &&& self.line <= self.current + 1
    }

    /// A fresh scanner over `source`: cursor at the first character, line
    /// counter at 1, nothing accumulated.
    pub fn new(source: String) -> (sc: Scanner)
        requires
            source@.len() < usize::MAX,
        ensures
            sc.wf(),
            sc.src() == source@,
            sc.toks() == Seq::<TokenModel>::empty(),
            sc.errs() == Seq::<ErrorModel>::empty(),
            sc.start == 0,
            sc.current == 0,
            sc.line == 1,
    {
        let sc = Scanner {
            source,
            tokens: Vec::new(),
            errors: Vec::new(),
            start: 0,
            current: 0,
            line: 1,
        };
        proof {
            assert(sc.toks() =~= Seq::<TokenModel>::empty());
            assert(sc.errs() =~= Seq::<ErrorModel>::empty());
        }
        sc
    }

    /// Whether the cursor has reached the end of the text.
    fn is_at_end(&self) -> (r: bool)
        ensures
            r == (self.current >= self.src().len()),
    {
        self.current >= self.source.as_str().unicode_len()
    }

    /// Consumes and returns the character under the cursor.
    fn advance(&mut self) -> (c: char)
        requires
            old(self).current < old(self).src().len(),
            old(self).src().len() < usize::MAX,
        ensures
            c == old(self).src()[old(self).current as int],
            *final(self) == (Scanner { current: (old(self).current + 1) as usize, ..*old(self) }),
    {
        let result = self.source.as_str().get_char(self.current);
        self.current = self.current + 1;
        result
    }

    /// The character under the cursor, if any, without consuming it.
    fn peek(&self) -> (r: Option<char>)
        requires
            self.current <= self.src().len(),
        ensures
            r == (if self.current < self.src().len() {
                Option::Some(self.src()[self.current as int])
            } else {
                Option::<char>::None
            }),
    {
        if self.current < self.source.as_str().unicode_len() {
            Option::Some(self.source.as_str().get_char(self.current))
        } else {
            Option::None
        }
    }

    /// The character one past the cursor, if any, without consuming it.
    fn peek_next(&self) -> (r: Option<char>)
        requires
            self.current <= self.src().len(),
            self.src().len() < usize::MAX,
        ensures
            r == (if self.current + 1 < self.src().len() {
                Option::Some(self.src()[self.current + 1])
            } else {
                Option::<char>::None
            }),
    {
        if self.current + 1 < self.source.as_str().unicode_len() {
            Option::Some(self.source.as_str().get_char(self.current + 1))
        } else {
            Option::None
        }
    }

    /// Consumes the character under the cursor exactly when it equals
    /// `expected`.
    fn is_match(&mut self, expected: char) -> (r: bool)
        requires
            old(self).current <= old(self).src().len(),
            old(self).src().len() < usize::MAX,
        ensures
            r == (old(self).current < old(self).src().len() && old(self).src()[old(
                self,
            ).current as int] == expected),
            r ==> *final(self) == (Scanner {
                current: (old(self).current + 1) as usize,
                ..*old(self)
            }),
            !r ==> *final(self) == *old(self),
    {
        match self.peek() {
            Option::Some(ch) => {
                if ch == expected {
                    self.current = self.current + 1;
                    true
                } else {
                    false
                }
            },
            Option::None => false,
        }
    }

    /// Appends a token without a literal payload for the current lexeme
    /// `source[start..current]` on the current line.
    fn add_token(&mut self, token_type: TokenType)
        requires
            old(self).start <= old(self).current <= old(self).src().len(),
        ensures
            *final(self) == (Scanner { tokens: final(self).tokens, ..*old(self) }),
            final(self).toks() == old(self).toks().push(
                TokenModel {
                    kind: token_type,
                    lexeme: old(self).src().subrange(
                        old(self).start as int,
                        old(self).current as int,
                    ),
                    literal: Option::None,
                    line: old(self).line as nat,
                },
            ),
    {
        self.add_token_object(token_type, Option::None)
    }

    /// Appends a token for the current lexeme `source[start..current]` on
    /// the current line, with the given literal payload.
    fn add_token_object(&mut self, ttype: TokenType, literal: Option<Object>)
        requires
            old(self).start <= old(self).current <= old(self).src().len(),
        ensures
            *final(self) == (Scanner { tokens: final(self).tokens, ..*old(self) }),
            final(self).toks() == old(self).toks().push(
                TokenModel {
                    kind: ttype,
                    lexeme: old(self).src().subrange(
                        old(self).start as int,
                        old(self).current as int,
                    ),
                    literal: match literal {
                        Option::Some(o) => Option::Some(o@),
                        Option::None => Option::None,
                    },
                    line: old(self).line as nat,
                },
            ),
    {
        let lexeme = String::from_str(self.source.as_str().substring_char(self.start, self.current));
        let tok = Token::new(ttype, lexeme, literal, self.line);
        self.tokens.push(tok);
        proof {
            assert(self.toks() =~= old(self).toks().push(tok@));
        }
    }

    /// Scans the remaining input to completion: repeated single-lexeme
    /// recognition, collecting each reported error on the side, then the
    /// one end-of-input token.  The call never fails; on a fresh scanner
    /// the tokens afterwards are exactly `scan_spec(source).tokens` and the
    /// collected errors exactly `scan_spec(source).errors`.
    pub fn scan_tokens(&mut self) -> (r: Result<&Vec<Token>, LoxError>)
        requires
            old(self).wf(),
        ensures
            final(self).wf(),
            final(self).source == old(self).source,
            ({
                let out = scan_rest(old(self).src(), old(self).current as int, old(self).line as nat);
                &&& final(self).toks() == old(self).toks() + out.tokens
                &&& final(self).errs() == old(self).errs() + out.errors
                &&& final(self).line as nat == out.line
                &&& (r matches Result::Ok(v) && v@ == final(self).tokens@)
            }),
    {
        let ghost s = self.src();
        while !self.is_at_end()
            invariant
                self.wf(),
                self.source == old(self).source,
                s == self.src(),
                old(self).toks() + scan_rest(s, old(self).current as int, old(self).line as nat).tokens
                    == self.toks() + scan_rest(s, self.current as int, self.line as nat).tokens,
                old(self).errs() + scan_rest(s, old(self).current as int, old(self).line as nat).errors
                    == self.errs() + scan_rest(s, self.current as int, self.line as nat).errors,
                scan_rest(s, old(self).current as int, old(self).line as nat).line == scan_rest(
                    s,
                    self.current as int,
                    self.line as nat,
                ).line,
            decreases s.len() - self.current,
        {
            self.start = self.current;
            let ghost pre = *self;
            let res = self.scan_token();
            proof {
                lemma_step_basics(s, pre.current as int, pre.line as nat);
                lemma_scan_rest_unfold(s, pre.current as int, pre.line as nat);
                assert(self.toks() + scan_rest(s, self.current as int, self.line as nat).tokens
                    =~= pre.toks() + scan_rest(s, pre.current as int, pre.line as nat).tokens);
            }
            match res {
                Result::Ok(_) => {
                    proof {
                        assert(self.errs() + scan_rest(
                            s,
                            self.current as int,
                            self.line as nat,
                        ).errors =~= pre.errs() + scan_rest(
                            s,
                            pre.current as int,
                            pre.line as nat,
                        ).errors);
                    }
                },
                Result::Err(e) => {
                    self.errors.push(e);
                    proof {
                        assert(self.errs() =~= pre.errs().push(e@));
                        assert(self.errs() + scan_rest(
                            s,
                            self.current as int,
                            self.line as nat,
                        ).errors =~= pre.errs() + scan_rest(
                            s,
                            pre.current as int,
                            pre.line as nat,
                        ).errors);
                    }
                },
            }
        }
        let ghost before_eof = *self;
        self.tokens.push(Token::eof(self.line));
        proof {
            let out = scan_rest(old(self).src(), old(self).current as int, old(self).line as nat);
            assert(self.toks() =~= before_eof.toks().push(
                crate::token::eof_model(before_eof.line as nat),
            ));
            assert(self.toks() =~= old(self).toks() + out.tokens);
            assert(self.errs() =~= old(self).errs() + out.errors);
        }
        Ok(&self.tokens)
    }

    /// Recognizes exactly one lexeme starting at the cursor (the caller has
    /// set `start` to it): the single-step transition of the scanner state
    /// machine, as [`step`] describes it.  At most one token is appended;
    /// a malformed lexeme returns its error instead.
    fn scan_token(&mut self) -> (r: Result<(), LoxError>)
        requires
            old(self).wf(),
            old(self).start == old(self).current,
            old(self).current < old(self).src().len(),
        ensures
            final(self).wf(),
            final(self).source == old(self).source,
            final(self).start == old(self).start,
            ({
                let st = step(old(self).src(), old(self).current as int, old(self).line as nat);
                &&& final(self).current as int == st.next
                &&& final(self).line as nat == st.line
                &&& final(self).toks() == old(self).toks() + opt_seq(st.token)
                &&& final(self).errors == old(self).errors
                &&& match r {
                    Result::Ok(u) => st.error is None,
                    Result::Err(e) => st.error == Option::Some(e@),
                }
            }),
    {
        let ghost s = self.src();
        let ghost p = self.current as int;
        let ghost l = self.line as nat;
        let ghost st = step(s, p, l);
        let c = self.advance();
        match c {
            '(' => {
                self.add_token(TokenType::LeftParen);
                proof {
                    assert(self.toks() =~= old(self).toks() + opt_seq(st.token));
                }
                Ok(())
            },
            ')' => {
                self.add_token(TokenType::RightParen);
                proof {
                    assert(self.toks() =~= old(self).toks() + opt_seq(st.token));
                }
                Ok(())
            },
            '{' => {
                self.add_token(TokenType::LeftBrace);
                proof {
                    assert(self.toks() =~= old(self).toks() + opt_seq(st.token));
                }
                Ok(())
            },
            '}' => {
                self.add_token(TokenType::RightBrace);
                proof {
                    assert(self.toks() =~= old(self).toks() + opt_seq(st.token));
                }
                Ok(())
            },
            ',' => {
                self.add_token(TokenType::Comma);
                proof {
                    assert(self.toks() =~= old(self).toks() + opt_seq(st.token));
                }
                Ok(())
            },
            '.' => {
                self.add_token(TokenType::Dot);
                proof {
                    assert(self.toks() =~= old(self).toks() + opt_seq(st.token));
                }
                Ok(())
            },
            '+' => {
                self.add_token(TokenType::Plus);
                proof {
                    assert(self.toks() =~= old(self).toks() + opt_seq(st.token));
                }
                Ok(())
            },
            ';' => {
                self.add_token(TokenType::Semicolon);
                proof {
                    assert(self.toks() =~= old(self).toks() + opt_seq(st.token));
                }
                Ok(())
            },
            '-' => {
                self.add_token(TokenType::Minus);
                proof {
                    assert(self.toks() =~= old(self).toks() + opt_seq(st.token));
                }
                Ok(())
            },
            '!' => {
                let tok = if self.is_match('=') {
                    TokenType::BangEqual
                } else {
                    TokenType::Bang
                };
                self.add_token(tok);
                proof {
                    assert(self.toks() =~= old(self).toks() + opt_seq(st.token));
                }
                Ok(())
            },
            '=' => {
                let tok = if self.is_match('=') {
                    TokenType::Equals
                } else {
                    TokenType::Assign
                };
                self.add_token(tok);
                proof {
                    assert(self.toks() =~= old(self).toks() + opt_seq(st.token));
                }
                Ok(())
            },
            '>' => {
                let tok = if self.is_match('=') {
                    TokenType::GreaterEqual
                } else {
                    TokenType::Greater
                };
                self.add_token(tok);
                proof {
                    assert(self.toks() =~= old(self).toks() + opt_seq(st.token));
                }
                Ok(())
            },
            '<' => {
                let tok = if self.is_match('=') {
                    TokenType::LessEqual
                } else {
                    TokenType::Less
                };
                self.add_token(tok);
                proof {
                    assert(self.toks() =~= old(self).toks() + opt_seq(st.token));
                }
                Ok(())
            },
            '/' => {
                if self.is_match('/') {
                    // A line comment: discard up to, but not including, the
                    // next newline, which is left for the main loop.
                    let ghost nl = |ch: char| ch != '\n';
                    let n = self.source.as_str().unicode_len();
                    while self.current < n && self.source.as_str().get_char(self.current) != '\n'
                        invariant
                            self.source == old(self).source,
                            self.start == old(self).start,
                            self.line == old(self).line,
                            self.tokens == old(self).tokens,
                            self.errors == old(self).errors,
                            s == self.src(),
                            n == s.len(),
                            s.len() < usize::MAX,
                            nl == (|ch: char| ch != '\n'),
                            old(self).current + 2 <= self.current <= s.len(),
                            run_end(s, self.current as int, nl) == run_end(
                                s,
                                old(self).current + 2,
                                nl,
                            ),
                        decreases n - self.current,
                    {
                        proof {
                            assert(nl(s[self.current as int]));
                            assert(run_end(s, self.current as int, nl) == run_end(
                                s,
                                self.current + 1,
                                nl,
                            ));
                        }
                        self.advance();
                    }
                    proof {
                        lemma_run_end(s, p + 2, nl);
                        assert(self.toks() =~= old(self).toks() + opt_seq(st.token));
                    }
                } else if self.is_match('*') {
                    // A block comment, not nesting-aware: discard until the
                    // first `*/`; its newlines still advance the line
                    // counter.
                    let n = self.source.as_str().unicode_len();
                    while self.current < n && !(self.source.as_str().get_char(self.current) == '*'
                        && self.current + 1 < n && self.source.as_str().get_char(self.current + 1)
                        == '/')
                        invariant
                            self.source == old(self).source,
                            self.start == old(self).start,
                            self.tokens == old(self).tokens,
                            self.errors == old(self).errors,
                            s == self.src(),
                            n == s.len(),
                            s.len() < usize::MAX,
                            old(self).current + 2 <= self.current <= s.len(),
                            block_comment_end(s, self.current as int) == block_comment_end(
                                s,
                                old(self).current + 2,
                            ),
                            self.line as int == old(self).line + newlines_in(
                                s,
                                old(self).current + 2,
                                self.current as int,
                            ),
                            1 <= self.line <= self.current + 1,
                        decreases n - self.current,
                    {
                        proof {
                            assert(block_comment_end(s, self.current as int) == block_comment_end(
                                s,
                                self.current + 1,
                            ));
                            assert(newlines_in(s, old(self).current + 2, self.current + 1)
                                == newlines_in(s, old(self).current + 2, self.current as int) + (
                            if s[self.current as int] == '\n' {
                                1int
                            } else {
                                0int
                            }));
                        }
                        let ch = self.source.as_str().get_char(self.current);
                        if ch == '\n' {
                            self.line = self.line + 1;
                        }
                        self.advance();
                    }
                    if !self.is_at_end() {
                        proof {
                            reveal_with_fuel(newlines_in, 3);
                            assert(newlines_in(s, self.current as int, self.current + 2) == 0);
                            crate::model_lemmas::lemma_newlines_in_split(
                                s,
                                p + 2,
                                self.current as int,
                                self.current + 2,
                            );
                        }
                        self.advance();
                        self.advance();
                    }
                    proof {
                        lemma_block_comment_end(s, p + 2);
                        assert(self.toks() =~= old(self).toks() + opt_seq(st.token));
                    }
                } else {
                    self.add_token(TokenType::Slash);
                    proof {
                        assert(self.toks() =~= old(self).toks() + opt_seq(st.token));
                    }
                }
                Ok(())
            },
            '\n' => {
                self.line = self.line + 1;
                proof {
                    assert(self.toks() =~= old(self).toks() + opt_seq(st.token));
                }
                Ok(())
            },
            '\r' | '\t' | ' ' => {
                proof {
                    assert(self.toks() =~= old(self).toks() + opt_seq(st.token));
                }
                Ok(())
            },
            '"' => self.string(),
            _ => {
                if is_digit_char(c) {
                    self.number()
                } else if is_ident_start_char(c) {
                    self.identifier()
                } else {
                    // Any other character is silently skipped: no token,
                    // no error.
                    proof {
                        assert(self.toks() =~= old(self).toks() + opt_seq(st.token));
                    }
                    Ok(())
                }
            },
        }
    }

    /// Recognizes an identifier or keyword whose first character the caller
    /// has just consumed: extends the lexeme over every further letter,
    /// digit or underscore, then emits the keyword kind reserved for the
    /// lexeme text, or an identifier token when none is.
    fn identifier(&mut self) -> (r: Result<(), LoxError>)
        requires
            old(self).wf(),
            old(self).start < old(self).src().len(),
            old(self).current == old(self).start + 1,
        ensures
            final(self).wf(),
            ({
                let st = identifier_step(
                    old(self).src(),
                    old(self).start as int,
                    old(self).line as nat,
                );
                &&& final(self).source == old(self).source
                &&& final(self).start == old(self).start
                &&& final(self).line == old(self).line
                &&& final(self).errors == old(self).errors
                &&& final(self).current as int == st.next
                &&& final(self).toks() == old(self).toks() + opt_seq(st.token)
                &&& r is Ok
            }),
    {
        let ghost s = self.src();
        let ghost cont = |c: char| is_ident_continue(c);
        let n = self.source.as_str().unicode_len();
        while self.current < n && is_ident_continue_char(self.source.as_str().get_char(self.current))
            invariant
                self.source == old(self).source,
                self.start == old(self).start,
                self.line == old(self).line,
                self.tokens == old(self).tokens,
                self.errors == old(self).errors,
                s == self.src(),
                n == s.len(),
                s.len() < usize::MAX,
                cont == (|c: char| is_ident_continue(c)),
                old(self).current <= self.current <= s.len(),
                run_end(s, self.current as int, cont) == run_end(
                    s,
                    old(self).current as int,
                    cont,
                ),
            decreases n - self.current,
        {
            proof {
                assert(cont(s[self.current as int]));
                assert(run_end(s, self.current as int, cont) == run_end(
                    s,
                    self.current + 1,
                    cont,
                ));
            }
            self.advance();
        }
        proof {
            lemma_run_end(s, old(self).current as int, cont);
            assert(self.current as int == run_end(s, old(self).current as int, cont));
        }
        let text = String::from_str(self.source.as_str().substring_char(self.start, self.current));
        match Scanner::keywords(text.as_str()) {
            Option::Some(ttype) => self.add_token(ttype),
            Option::None => self.add_token(TokenType::Identifier),
        };
        proof {
            let st = identifier_step(old(self).src(), old(self).start as int, old(self).line as nat);
            assert(self.toks() =~= old(self).toks() + opt_seq(st.token));
        }
        Ok(())
    }

    /// Recognizes a number literal whose first digit the caller has just
    /// consumed: a maximal run of digits, then — only if a `.` follows with
    /// a digit directly after it — the `.` and a further maximal run of
    /// digits.  The emitted token carries the exact numeric text as its
    /// literal.
    fn number(&mut self) -> (r: Result<(), LoxError>)
        requires
            old(self).wf(),
            old(self).start < old(self).src().len(),
            old(self).current == old(self).start + 1,
        ensures
            final(self).wf(),
            ({
                let st = number_step(old(self).src(), old(self).start as int, old(self).line as nat);
                &&& final(self).source == old(self).source
                &&& final(self).start == old(self).start
                &&& final(self).line == old(self).line
                &&& final(self).errors == old(self).errors
                &&& final(self).current as int == st.next
                &&& final(self).toks() == old(self).toks() + opt_seq(st.token)
                &&& r is Ok
            }),
    {
        let ghost s = self.src();
        let ghost dig = |c: char| is_digit(c);
        let n = self.source.as_str().unicode_len();
        while self.current < n && is_digit_char(self.source.as_str().get_char(self.current))
            invariant
                self.source == old(self).source,
                self.start == old(self).start,
                self.line == old(self).line,
                self.tokens == old(self).tokens,
                self.errors == old(self).errors,
                s == self.src(),
                n == s.len(),
                s.len() < usize::MAX,
                dig == (|c: char| is_digit(c)),
                old(self).current <= self.current <= s.len(),
                run_end(s, self.current as int, dig) == run_end(s, old(self).current as int, dig),
            decreases n - self.current,
        {
            proof {
                assert(dig(s[self.current as int]));
                assert(run_end(s, self.current as int, dig) == run_end(s, self.current + 1, dig));
            }
            self.advance();
        }
        proof {
            lemma_run_end(s, old(self).current as int, dig);
        }
        let ghost int_end = self.current as int;
        let next_is_dot = match self.peek() {
            Option::Some(c) => c == '.',
            Option::None => false,
        };
        let after_is_digit = match self.peek_next() {
            Option::Some(c) => is_digit_char(c),
            Option::None => false,
        };
        if next_is_dot && after_is_digit {
            self.advance();
            while self.current < n && is_digit_char(self.source.as_str().get_char(self.current))
                invariant
                    self.source == old(self).source,
                    self.start == old(self).start,
                    self.line == old(self).line,
                    self.tokens == old(self).tokens,
                    self.errors == old(self).errors,
                    s == self.src(),
                    n == s.len(),
                    s.len() < usize::MAX,
                    dig == (|c: char| is_digit(c)),
                    int_end + 1 <= self.current <= s.len(),
                    run_end(s, self.current as int, dig) == run_end(s, int_end + 1, dig),
                decreases n - self.current,
            {
                proof {
                    assert(dig(s[self.current as int]));
                    assert(run_end(s, self.current as int, dig) == run_end(
                        s,
                        self.current + 1,
                        dig,
                    ));
                }
                self.advance();
            }
            proof {
                lemma_run_end(s, int_end + 1, dig);
            }
        }
        let text = String::from_str(self.source.as_str().substring_char(self.start, self.current));
        self.add_token_object(TokenType::Number, Option::Some(Object::Num(text)));
        proof {
            let st = number_step(old(self).src(), old(self).start as int, old(self).line as nat);
            assert(self.toks() =~= old(self).toks() + opt_seq(st.token));
        }
        Ok(())
    }

    /// Recognizes a string literal whose opening quote the caller has just
    /// consumed: the body runs to the closing quote, newlines inside it
    /// advance the line counter, and the emitted token records the line on
    /// which the lexeme starts and carries the text strictly between the
    /// quotes as its literal.  When the input ends before a closing quote,
    /// no token is emitted and the one lexical error is returned.
    fn string(&mut self) -> (r: Result<(), LoxError>)
        requires
            old(self).wf(),
            old(self).start < old(self).src().len(),
            old(self).current == old(self).start + 1,
        ensures
            final(self).wf(),
            ({
                let st = string_step(old(self).src(), old(self).start as int, old(self).line as nat);
                &&& final(self).source == old(self).source
                &&& final(self).start == old(self).start
                &&& final(self).errors == old(self).errors
                &&& final(self).current as int == st.next
                &&& final(self).line as nat == st.line
                &&& final(self).toks() == old(self).toks() + opt_seq(st.token)
                &&& match r {
                    Result::Ok(u) => st.error is None,
                    Result::Err(e) => st.error == Option::Some(e@),
                }
            }),
    {
        let ghost s = self.src();
        let ghost nq = |c: char| c != '"';
        let line_start = self.line;
        let n = self.source.as_str().unicode_len();
        while self.current < n && self.source.as_str().get_char(self.current) != '"'
            invariant
                self.source == old(self).source,
                self.start == old(self).start,
                self.tokens == old(self).tokens,
                self.errors == old(self).errors,
                s == self.src(),
                n == s.len(),
                s.len() < usize::MAX,
                nq == (|c: char| c != '"'),
                line_start == old(self).line,
                old(self).current <= self.current <= s.len(),
                run_end(s, self.current as int, nq) == run_end(s, old(self).current as int, nq),
                self.line as int == old(self).line + newlines_in(
                    s,
                    old(self).current as int,
                    self.current as int,
                ),
                1 <= self.line <= self.current + 1,
            decreases n - self.current,
        {
            proof {
                assert(nq(s[self.current as int]));
                assert(run_end(s, self.current as int, nq) == run_end(s, self.current + 1, nq));
                assert(newlines_in(s, old(self).current as int, self.current + 1) == newlines_in(
                    s,
                    old(self).current as int,
                    self.current as int,
                ) + (if s[self.current as int] == '\n' {
                    1int
                } else {
                    0int
                }));
            }
            let c = self.source.as_str().get_char(self.current);
            if c == '\n' {
                self.line = self.line + 1;
            }
            self.advance();
        }
        proof {
            lemma_run_end(s, old(self).current as int, nq);
        }
        if self.is_at_end() {
            proof {
                assert(self.toks() =~= old(self).toks() + opt_seq(
                    string_step(
                        old(self).src(),
                        old(self).start as int,
                        old(self).line as nat,
                    ).token,
                ));
            }
            return Err(LoxError::error(self.line, String::from_str("Unterminated string")));
        }
        self.advance();
        let value = String::from_str(
            self.source.as_str().substring_char(self.start + 1, self.current - 1),
        );
        let lexeme = String::from_str(self.source.as_str().substring_char(self.start, self.current));
        let tok = Token::new(
            TokenType::String,
            lexeme,
            Option::Some(Object::Str(value)),
            line_start,
        );
        self.tokens.push(tok);
        proof {
            let st = string_step(old(self).src(), old(self).start as int, old(self).line as nat);
            assert(self.toks() =~= old(self).toks() + opt_seq(st.token));
        }
        Ok(())
    }

    /// The keyword kind reserved for the exact text `check`, if any.
    fn keywords(check: &str) -> (r: Option<TokenType>)
        ensures
            r == keyword_kind(check@),
    {
        if text_eq(check, "and") {
            Option::Some(TokenType::And)
        } else if text_eq(check, "class") {
            Option::Some(TokenType::Class)
        } else if text_eq(check, "else") {
            Option::Some(TokenType::Else)
        } else if text_eq(check, "true") {
            Option::Some(TokenType::True)
        } else if text_eq(check, "false") {
            Option::Some(TokenType::False)
        } else if text_eq(check, "for") {
            Option::Some(TokenType::For)
        } else if text_eq(check, "fun") {
            Option::Some(TokenType::Fun)
        } else if text_eq(check, "if") {
            Option::Some(TokenType::If)
        } else if text_eq(check, "nil") {
            Option::Some(TokenType::Nil)
        } else if text_eq(check, "or") {
            Option::Some(TokenType::Or)
        } else if text_eq(check, "print") {
            Option::Some(TokenType::Print)
        } else if text_eq(check, "return") {
            Option::Some(TokenType::Return)
        } else if text_eq(check, "super") {
            Option::Some(TokenType::Super)
        } else if text_eq(check, "this") {
            Option::Some(TokenType::This)
        } else if text_eq(check, "var") {
            Option::Some(TokenType::Var)
        } else if text_eq(check, "while") {
            Option::Some(TokenType::While)
        } else {
            Option::None
        }
    }
}

} // verus!
