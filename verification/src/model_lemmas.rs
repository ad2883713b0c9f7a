//! Proofs about the spec model: bounds on the character-run and
//! newline-count helpers, and the facts that every single-lexeme step makes
//! progress, records the line its lexeme starts on, and emits a lexeme that
//! is the verbatim slice of the source it consumed.

use vstd::prelude::*;

use crate::model::block_comment_end;
use crate::model::newlines_in;
use crate::model::run_end;
use crate::model::opt_seq;
use crate::model::scan_rest;
use crate::model::step;
use crate::token::TokenType;

verus! {

/// `run_end(s, i, p)` stays within `[i, s.len()]`, every character it ran
/// over satisfies `p`, and the character it stopped on (if any) does not.
pub proof fn lemma_run_end(s: Seq<char>, i: int, p: spec_fn(char) -> bool)
    requires
        0 <= i <= s.len(),
    ensures
        i <= run_end(s, i, p) <= s.len(),
        forall|j: int| i <= j < run_end(s, i, p) ==> p(s[j]),
        run_end(s, i, p) < s.len() ==> !p(s[run_end(s, i, p)]),
    decreases s.len() - i,
{
    if i < s.len() && p(s[i]) {
        lemma_run_end(s, i + 1, p);
    }
}

/// The newline count of a range is between 0 and the width of the range.
pub proof fn lemma_newlines_in_bounds(s: Seq<char>, lo: int, hi: int)
    requires
        lo <= hi,
    ensures
        0 <= newlines_in(s, lo, hi) <= hi - lo,
    decreases hi - lo,
{
    if lo < hi {
        lemma_newlines_in_bounds(s, lo, hi - 1);
    }
}

/// Newline counts add up over adjacent ranges.
pub proof fn lemma_newlines_in_split(s: Seq<char>, lo: int, mid: int, hi: int)
    requires
        lo <= mid <= hi,
    ensures
        newlines_in(s, lo, hi) == newlines_in(s, lo, mid) + newlines_in(s, mid, hi),
    decreases hi - mid,
{
    if mid < hi {
        lemma_newlines_in_split(s, lo, mid, hi - 1);
    }
}

/// `block_comment_end(s, i)` stays within `[i, s.len()]`.
pub proof fn lemma_block_comment_end(s: Seq<char>, i: int)
    requires
        0 <= i <= s.len(),
    ensures
        i <= block_comment_end(s, i) <= s.len(),
    decreases s.len() - i,
{
    if i < s.len() && !(s[i] == '*' && i + 1 < s.len() && s[i + 1] == '/') {
        lemma_block_comment_end(s, i + 1);
    }
}

/// Every single-lexeme step consumes at least one character and never runs
/// past the end of input; the line counter never decreases and advances by
/// at most one per character consumed; an emitted token records the line on
/// which its lexeme starts, is never the end-of-input kind, and its lexeme
/// is exactly the consumed slice of the source; an emitted error records the
/// line reached at the end of the step.
pub proof fn lemma_step_basics(s: Seq<char>, p: int, l: nat)
    requires
        0 <= p < s.len(),
    ensures
        ({
            let st = step(s, p, l);
            &&& p < st.next <= s.len()
            &&& l <= st.line <= l + (st.next - p)
            &&& (st.token is Some ==> st.token->Some_0.line == l)
            &&& (st.token is Some ==> st.token->Some_0.kind != TokenType::Eof)
            &&& (st.token is Some ==> st.token->Some_0.lexeme == s.subrange(p, st.next))
            &&& (st.error is Some ==> st.error->Some_0.line == st.line)
        }),
{
    let c = s[p];
    if c == '/' && p + 1 < s.len() && s[p + 1] == '/' {
        lemma_run_end(s, p + 2, |ch: char| ch != '\n');
    } else if c == '/' && p + 1 < s.len() && s[p + 1] == '*' {
        lemma_block_comment_end(s, p + 2);
        lemma_newlines_in_bounds(s, p + 2, block_comment_end(s, p + 2));
    } else if c == '"' {
        let close = run_end(s, p + 1, |ch: char| ch != '"');
        lemma_run_end(s, p + 1, |ch: char| ch != '"');
        if close >= s.len() {
            lemma_newlines_in_bounds(s, p + 1, s.len() as int);
        } else {
            lemma_newlines_in_bounds(s, p + 1, close);
        }
    } else if crate::model::is_digit(c) {
        let int_end = run_end(s, p + 1, |ch: char| crate::model::is_digit(ch));
        lemma_run_end(s, p + 1, |ch: char| crate::model::is_digit(ch));
        if int_end < s.len() && s[int_end] == '.' && int_end + 1 < s.len()
            && crate::model::is_digit(s[int_end + 1]) {
            lemma_run_end(s, int_end + 1, |ch: char| crate::model::is_digit(ch));
        }
    } else if crate::model::is_ident_start(c) {
        lemma_run_end(s, p + 1, |ch: char| crate::model::is_ident_continue(ch));
    }
}

/// Appending the one element of a `Some` is a push; appending a `None`
/// appends nothing.
pub proof fn lemma_add_opt<T>(s: Seq<T>, o: Option<T>)
    ensures
        o is Some ==> s + opt_seq(o) == s.push(o->Some_0),
        o is None ==> s + opt_seq(o) == s,
{
    match o {
        Option::Some(t) => {
            assert(s + opt_seq(o) =~= s.push(t));
        },
        Option::None => {
            assert(s + opt_seq(o) =~= s);
        },
    }
}

/// With the progress fact in hand, `scan_rest` at an in-range position
/// unfolds to the step's outputs followed by the scan of the rest: the
/// termination clamp inside its body never fires.
pub proof fn lemma_scan_rest_unfold(s: Seq<char>, p: int, l: nat)
    requires
        0 <= p < s.len(),
    ensures
        ({
            let st = step(s, p, l);
            let rest = scan_rest(s, st.next, st.line);
            &&& scan_rest(s, p, l).tokens == opt_seq(st.token) + rest.tokens
            &&& scan_rest(s, p, l).errors == opt_seq(st.error) + rest.errors
            &&& scan_rest(s, p, l).line == rest.line
        }),
{
    lemma_step_basics(s, p, l);
}

} // verus!
