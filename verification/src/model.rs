//! The mathematical model of the scan: spec functions that define, character
//! by character, which lexeme starts at a given cursor position, what token
//! or error it produces, and where the cursor and line counter stand
//! afterwards.  The executable scanner is verified to return exactly what
//! [`scan_spec`] describes.

use vstd::prelude::*;

use crate::token::ErrorModel;
use crate::token::ObjectModel;
use crate::token::TokenModel;
use crate::token::TokenType;
use crate::token::eof_model;

verus! {

/// An ASCII decimal digit.
pub open spec fn is_digit(c: char) -> bool {
    ('0' as u32) <= (c as u32) && (c as u32) <= ('9' as u32)
}

/// An ASCII letter or underscore: the characters that may start an
/// identifier.
pub open spec fn is_ident_start(c: char) -> bool {
    (('a' as u32) <= (c as u32) && (c as u32) <= ('z' as u32))
        || (('A' as u32) <= (c as u32) && (c as u32) <= ('Z' as u32))
        || c == '_'
}

/// A character that may continue an identifier: a letter, a digit, or an
/// underscore.
pub open spec fn is_ident_continue(c: char) -> bool {
    is_ident_start(c) || is_digit(c)
}

/// The first index at or after `i` whose character fails `p`, or the length
/// of `s` if every character from `i` on satisfies `p`.
pub open spec fn run_end(s: Seq<char>, i: int, p: spec_fn(char) -> bool) -> int
    decreases s.len() - i,
{
    if i < 0 {
        i
    } else if i >= s.len() {
        s.len() as int
    } else if p(s[i]) {
        run_end(s, i + 1, p)
    } else {
        i
    }
}

/// The number of newline characters of `s` in the index range `[lo, hi)`.
pub open spec fn newlines_in(s: Seq<char>, lo: int, hi: int) -> int
    decreases hi - lo,
{
    if lo >= hi {
        0
    } else {
        newlines_in(s, lo, hi - 1) + if s[hi - 1] == '\n' { 1int } else { 0int }
    }
}

/// The cursor position just after the `*/` that closes a block comment whose
/// body starts at `i`, or the length of `s` when the comment is unterminated
/// (the comment then absorbs the rest of the input).
pub open spec fn block_comment_end(s: Seq<char>, i: int) -> int
    decreases s.len() - i,
{
    if i < 0 || i >= s.len() {
        s.len() as int
    } else if s[i] == '*' && i + 1 < s.len() && s[i + 1] == '/' {
        i + 2
    } else {
        block_comment_end(s, i + 1)
    }
}

/// The keyword kind reserved for the exact identifier text `t`, if any
/// (case-sensitive, exact match).
pub open spec fn keyword_kind(t: Seq<char>) -> Option<TokenType> {
    if t == "and"@ {
        Option::Some(TokenType::And)
    } else if t == "class"@ {
        Option::Some(TokenType::Class)
    } else if t == "else"@ {
        Option::Some(TokenType::Else)
    } else if t == "true"@ {
        Option::Some(TokenType::True)
    } else if t == "false"@ {
        Option::Some(TokenType::False)
    } else if t == "for"@ {
        Option::Some(TokenType::For)
    } else if t == "fun"@ {
        Option::Some(TokenType::Fun)
    } else if t == "if"@ {
        Option::Some(TokenType::If)
    } else if t == "nil"@ {
        Option::Some(TokenType::Nil)
    } else if t == "or"@ {
        Option::Some(TokenType::Or)
    } else if t == "print"@ {
        Option::Some(TokenType::Print)
    } else if t == "return"@ {
        Option::Some(TokenType::Return)
    } else if t == "super"@ {
        Option::Some(TokenType::Super)
    } else if t == "this"@ {
        Option::Some(TokenType::This)
    } else if t == "var"@ {
        Option::Some(TokenType::Var)
    } else if t == "while"@ {
        Option::Some(TokenType::While)
    } else {
        Option::None
    }
}

/// The outcome of recognizing one lexeme: the new cursor position, the new
/// line counter, at most one emitted token, and at most one reported error.
pub ghost struct StepModel {
    pub next: int,
    pub line: nat,
    pub token: Option<TokenModel>,
    pub error: Option<ErrorModel>,
}

/// A step that consumes the characters `[p, next)`, leaves the line counter
/// unchanged, and emits neither token nor error.
pub open spec fn silent_step(next: int, l: nat) -> StepModel {
    StepModel { next: next, line: l, token: Option::None, error: Option::None }
}

/// A step that consumes the characters `[p, next)` and emits one token of
/// kind `k` with lexeme `s[p..next]`, literal `lit`, and the line `l` on
/// which the lexeme starts.
pub open spec fn token_step(
    s: Seq<char>,
    p: int,
    next: int,
    l: nat,
    k: TokenType,
    lit: Option<ObjectModel>,
) -> StepModel {
    StepModel {
        next: next,
        line: l,
        token: Option::Some(
            TokenModel { kind: k, lexeme: s.subrange(p, next), literal: lit, line: l },
        ),
        error: Option::None,
    }
}

/// The text of the one reported error kind.
pub open spec fn unterminated_string_message() -> Seq<char> {
    "Unterminated string"@
}

/// Recognition of a string literal whose opening quote stands at `p`.  The
/// body runs to the next `"` or to the end of input.  Newlines inside the
/// body increment the line counter but the token records the line on which
/// the lexeme starts.  A missing closing quote is the one reported lexical
/// error; it contributes no token.
pub open spec fn string_step(s: Seq<char>, p: int, l: nat) -> StepModel {
    let close = run_end(s, p + 1, |c: char| c != '"');
    if close >= s.len() {
        StepModel {
            next: s.len() as int,
            line: (l + newlines_in(s, p + 1, s.len() as int)) as nat,
            token: Option::None,
            error: Option::Some(
                ErrorModel {
                    line: (l + newlines_in(s, p + 1, s.len() as int)) as nat,
                    message: unterminated_string_message(),
                },
            ),
        }
    } else {
        StepModel {
            next: close + 1,
            line: (l + newlines_in(s, p + 1, close)) as nat,
            token: Option::Some(
                TokenModel {
                    kind: TokenType::String,
                    lexeme: s.subrange(p, close + 1),
                    literal: Option::Some(ObjectModel::Str(s.subrange(p + 1, close))),
                    line: l,
                },
            ),
            error: Option::None,
        }
    }
}

/// Recognition of a number literal whose first digit stands at `p`: a
/// maximal run of digits, then — only if a `.` follows with a digit directly
/// after it — the `.` and a further maximal run of digits.  The literal
/// carries the exact numeric text.
pub open spec fn number_step(s: Seq<char>, p: int, l: nat) -> StepModel {
    let int_end = run_end(s, p + 1, |c: char| is_digit(c));
    let next = if int_end < s.len() && s[int_end] == '.' && int_end + 1 < s.len() && is_digit(
        s[int_end + 1],
    ) {
        run_end(s, int_end + 1, |c: char| is_digit(c))
    } else {
        int_end
    };
    token_step(
        s,
        p,
        next,
        l,
        TokenType::Number,
        Option::Some(ObjectModel::Num(s.subrange(p, next))),
    )
}

/// Recognition of an identifier or keyword whose first character stands at
/// `p`: a maximal run of letters, digits and underscores, looked up against
/// the keyword table.
pub open spec fn identifier_step(s: Seq<char>, p: int, l: nat) -> StepModel {
    let next = run_end(s, p + 1, |c: char| is_ident_continue(c));
    let kind = match keyword_kind(s.subrange(p, next)) {
        Option::Some(k) => k,
        Option::None => TokenType::Identifier,
    };
    token_step(s, p, next, l, kind, Option::None)
}

/// Recognition of exactly one lexeme starting at position `p` (with `p`
/// inside the input) on line `l`: the single-step transition of the scanner
/// state machine.
pub open spec fn step(s: Seq<char>, p: int, l: nat) -> StepModel {
    let c = s[p];
    if c == '(' {
        token_step(s, p, p + 1, l, TokenType::LeftParen, Option::None)
    } else if c == ')' {
        token_step(s, p, p + 1, l, TokenType::RightParen, Option::None)
    } else if c == '{' {
        token_step(s, p, p + 1, l, TokenType::LeftBrace, Option::None)
    } else if c == '}' {
        token_step(s, p, p + 1, l, TokenType::RightBrace, Option::None)
    } else if c == ',' {
        token_step(s, p, p + 1, l, TokenType::Comma, Option::None)
    } else if c == '.' {
        token_step(s, p, p + 1, l, TokenType::Dot, Option::None)
    } else if c == '+' {
        token_step(s, p, p + 1, l, TokenType::Plus, Option::None)
    } else if c == ';' {
        token_step(s, p, p + 1, l, TokenType::Semicolon, Option::None)
    } else if c == '-' {
        token_step(s, p, p + 1, l, TokenType::Minus, Option::None)
    } else if c == '!' {
        if p + 1 < s.len() && s[p + 1] == '=' {
            token_step(s, p, p + 2, l, TokenType::BangEqual, Option::None)
        } else {
            token_step(s, p, p + 1, l, TokenType::Bang, Option::None)
        }
    } else if c == '=' {
        if p + 1 < s.len() && s[p + 1] == '=' {
            token_step(s, p, p + 2, l, TokenType::Equals, Option::None)
        } else {
            token_step(s, p, p + 1, l, TokenType::Assign, Option::None)
        }
    } else if c == '>' {
        if p + 1 < s.len() && s[p + 1] == '=' {
            token_step(s, p, p + 2, l, TokenType::GreaterEqual, Option::None)
        } else {
            token_step(s, p, p + 1, l, TokenType::Greater, Option::None)
        }
    } else if c == '<' {
        if p + 1 < s.len() && s[p + 1] == '=' {
            token_step(s, p, p + 2, l, TokenType::LessEqual, Option::None)
        } else {
            token_step(s, p, p + 1, l, TokenType::Less, Option::None)
        }
    } else if c == '/' {
        if p + 1 < s.len() && s[p + 1] == '/' {
            // A line comment: discard up to, but not including, the next
            // newline; the newline is left for the outer loop.
            silent_step(run_end(s, p + 2, |ch: char| ch != '\n'), l)
        } else if p + 1 < s.len() && s[p + 1] == '*' {
            // A block comment, not nesting-aware: discard until the first
            // `*/`; its newlines still advance the line counter.
            let next = block_comment_end(s, p + 2);
            silent_step(next, (l + newlines_in(s, p + 2, next)) as nat)
        } else {
            token_step(s, p, p + 1, l, TokenType::Slash, Option::None)
        }
    } else if c == '\n' {
        StepModel { next: p + 1, line: (l + 1) as nat, token: Option::None, error: Option::None }
    } else if c == '\r' || c == '\t' || c == ' ' {
        silent_step(p + 1, l)
    } else if c == '"' {
        string_step(s, p, l)
    } else if is_digit(c) {
        number_step(s, p, l)
    } else if is_ident_start(c) {
        identifier_step(s, p, l)
    } else {
        // Any other character is silently skipped: no token, no error.
        silent_step(p + 1, l)
    }
}

/// The full outcome of a scan: the token sequence (ending in the one
/// end-of-input token), the errors reported along the way in source order,
/// and the final line counter.
pub ghost struct ScanModel {
    pub tokens: Seq<TokenModel>,
    pub errors: Seq<ErrorModel>,
    pub line: nat,
}

/// A sequence of the at most one element of `o`.
pub open spec fn opt_seq<T>(o: Option<T>) -> Seq<T> {
    match o {
        Option::Some(t) => seq![t],
        Option::None => Seq::<T>::empty(),
    }
}

/// Everything the scan still produces from cursor position `p` on line `l`:
/// repeated single-lexeme recognition until the end of input, then the one
/// end-of-input token.  (The cursor of the next round is clamped into
/// `(p, s.len()]` so that the recursion is visibly well-founded; the clamp
/// never fires, since a step always makes progress — see
/// `lemma_step_basics`.)
pub open spec fn scan_rest(s: Seq<char>, p: int, l: nat) -> ScanModel
    decreases s.len() - p,
{
    if p < 0 || p >= s.len() {
        ScanModel { tokens: seq![eof_model(l)], errors: Seq::<ErrorModel>::empty(), line: l }
    } else {
        let st = step(s, p, l);
        let bounded = if st.next > s.len() {
            s.len() as int
        } else {
            st.next
        };
        let np = if bounded <= p {
            p + 1
        } else {
            bounded
        };
        let rest = scan_rest(s, np, st.line);
        ScanModel {
            tokens: opt_seq(st.token) + rest.tokens,
            errors: opt_seq(st.error) + rest.errors,
            line: rest.line,
        }
    }
}

/// The whole scan of a source text: from position 0 on line 1.
pub open spec fn scan_spec(s: Seq<char>) -> ScanModel {
    scan_rest(s, 0, 1)
}

} // verus!
