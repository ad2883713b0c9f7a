//! Laws of the scan, proved once and for all over the model that
//! `Scanner::scan_tokens` is verified to return: the shape of the token
//! sequence, the lexemes' relation to the source text, the order of the
//! line numbers, and determinism.

use vstd::prelude::*;

use crate::model::opt_seq;
use crate::model::scan_rest;
use crate::model::scan_spec;
use crate::model::step;
use crate::model_lemmas::lemma_scan_rest_unfold;
use crate::model_lemmas::lemma_step_basics;
use crate::token::TokenType;

verus! {

/// Everything the induction needs about a partial scan from position `p`
/// on line `l`: the token sequence is non-empty and ends in the one
/// end-of-input token (itself carrying the final line and an empty
/// lexeme); every other token has a different kind, a line at least `l`,
/// and a lexeme that is a non-empty contiguous slice of the source from
/// `p` on; and line numbers never decrease along the sequence.
proof fn lemma_scan_rest_props(s: Seq<char>, p: int, l: nat)
    requires
        0 <= p <= s.len(),
    ensures
        ({
            let out = scan_rest(s, p, l);
            &&& out.tokens.len() >= 1
            &&& out.tokens[out.tokens.len() - 1].kind == TokenType::Eof
            &&& out.tokens[out.tokens.len() - 1].lexeme == Seq::<char>::empty()
            &&& out.tokens[out.tokens.len() - 1].line == out.line
            &&& out.line >= l
            &&& forall|i: int|
                0 <= i < out.tokens.len() - 1 ==> (#[trigger] out.tokens[i]).kind
                    != TokenType::Eof
            &&& forall|i: int|
                0 <= i < out.tokens.len() ==> l <= (#[trigger] out.tokens[i]).line
            &&& forall|i: int, j: int|
                0 <= i <= j < out.tokens.len() ==> (#[trigger] out.tokens[i]).line <= (
                #[trigger] out.tokens[j]).line
            &&& forall|i: int|
                0 <= i < out.tokens.len() - 1 ==> exists|a: int, b: int|
                    p <= a < b <= s.len() && (#[trigger] out.tokens[i]).lexeme == s.subrange(a, b)
        }),
    decreases s.len() - p,
{
    if p >= s.len() {
        // The base case: the one end-of-input token.
    } else {
        let st = step(s, p, l);
        lemma_step_basics(s, p, l);
        lemma_scan_rest_unfold(s, p, l);
        lemma_scan_rest_props(s, st.next, st.line);
        let out = scan_rest(s, p, l);
        let rest = scan_rest(s, st.next, st.line);
        let off = opt_seq(st.token).len();
        assert(out.tokens.len() == off + rest.tokens.len());
        assert(forall|i: int|
            off <= i < out.tokens.len() ==> #[trigger] out.tokens[i] == rest.tokens[i - off]);
        assert forall|i: int|
            0 <= i < out.tokens.len() - 1 implies exists|a: int, b: int|
            p <= a < b <= s.len() && (#[trigger] out.tokens[i]).lexeme == s.subrange(a, b) by {
            if i < off {
                assert(out.tokens[i] == st.token->Some_0);
                assert(p <= p < st.next <= s.len() && out.tokens[i].lexeme == s.subrange(
                    p,
                    st.next,
                ));
            } else {
                let t = rest.tokens[i - off];
                assert(exists|a: int, b: int|
                    st.next <= a < b <= s.len() && t.lexeme == #[trigger] s.subrange(a, b));
                let (a, b): (int, int) = choose|a: int, b: int|
                    st.next <= a < b <= s.len() && t.lexeme == s.subrange(a, b);
                assert(p <= a < b <= s.len() && out.tokens[i].lexeme == s.subrange(a, b));
            }
        }
    }
}

/// For every source text, the scan terminates and returns a non-empty
/// token sequence whose last element — and no other — has the
/// end-of-input kind; that marker carries an empty lexeme and the final
/// line count reached.
pub proof fn lemma_scan_ends_in_eof(s: Seq<char>)
    ensures
        scan_spec(s).tokens.len() >= 1,
        scan_spec(s).tokens[scan_spec(s).tokens.len() - 1].kind == TokenType::Eof,
        scan_spec(s).tokens[scan_spec(s).tokens.len() - 1].lexeme == Seq::<char>::empty(),
        scan_spec(s).tokens[scan_spec(s).tokens.len() - 1].line == scan_spec(s).line,
        forall|i: int|
            0 <= i < scan_spec(s).tokens.len() - 1 ==> (#[trigger] scan_spec(s).tokens[i]).kind
                != TokenType::Eof,
{
    lemma_scan_rest_props(s, 0, 1);
}

/// For every source text, the lexeme of every token except the
/// end-of-input marker is a non-empty contiguous slice of that text.
pub proof fn lemma_lexemes_are_slices_of_source(s: Seq<char>)
    ensures
        forall|i: int|
            0 <= i < scan_spec(s).tokens.len() - 1 ==> exists|a: int, b: int|
                0 <= a < b <= s.len() && (#[trigger] scan_spec(s).tokens[i]).lexeme == s.subrange(
                    a,
                    b,
                ),
{
    lemma_scan_rest_props(s, 0, 1);
}

/// For every source text, the line numbers of the returned tokens are
/// monotonically non-decreasing in source order, and all are at least 1.
pub proof fn lemma_lines_non_decreasing(s: Seq<char>)
    ensures
        forall|i: int, j: int|
            0 <= i <= j < scan_spec(s).tokens.len() ==> (#[trigger] scan_spec(s).tokens[i]).line
                <= (#[trigger] scan_spec(s).tokens[j]).line,
        forall|i: int|
            0 <= i < scan_spec(s).tokens.len() ==> 1 <= (#[trigger] scan_spec(s).tokens[i]).line,
{
    lemma_scan_rest_props(s, 0, 1);
}

/// Scanning is deterministic: the whole outcome — tokens, errors and final
/// line — is a function of the source text alone, so scanning the same
/// text twice (a fresh scanner each time) yields identical token
/// sequences.  Together with the contract of `Scanner::scan_tokens`, which
/// ties the returned tokens to `scan_spec` of the source, this is
/// idempotence of the scan.
pub proof fn lemma_scan_deterministic(s1: Seq<char>, s2: Seq<char>)
    requires
        s1 == s2,
    ensures
        scan_spec(s1).tokens == scan_spec(s2).tokens,
        scan_spec(s1).errors == scan_spec(s2).errors,
        scan_spec(s1).line == scan_spec(s2).line,
{
}

} // verus!
