use crate::capability::TypeCapability;
use crate::chain::AdapterCall;
use crate::chain::Candidate;
use crate::chain::Span;
use crate::chain::evaluation;
use std::ops::Range;
use vstd::prelude::*;

verus! {

/// A traversal that leaves the function it is made in: nothing consumes it
/// there.
pub fn iter_returned() -> (r: Range<usize>)
    ensures
        r.start == 0,
        r.end == 100,
{
    (0..100).into_iter()
}

/// The candidate that `iter_returned` holds: the call of `into_iter` on a
/// range, with no call chained to it, whose result the caller observes.
pub open spec fn returned_candidate(candidate: Candidate) -> bool {
    &&& candidate.method@ == "into_iter"@
    &&& candidate.has_parallel_counterpart
    &&& candidate.observed_as_container
    &&& candidate.chain@.len() == 0
}

/// Makes the candidate that `iter_returned` holds; `span` is where the call
/// stands.
pub fn iter_returned_candidate(span: Span) -> (candidate: Candidate)
    ensures
        returned_candidate(candidate),
        candidate.span == span,
        !candidate.in_unsafe_region,
{
    Candidate {
        method: "into_iter".to_owned(),
        has_parallel_counterpart: true,
        span,
        observed_as_container: true,
        in_unsafe_region: false,
        chain: Vec::new(),
    }
}

/// A traversal that is returned is never handed to the concurrent traversal,
/// whatever adapters are allowed and whatever the oracle answers.
pub proof fn lemma_returned_is_rejected(
    candidate: Candidate,
    allowed: Set<Seq<char>>,
    answers: Map<u64, TypeCapability>,
)
    requires
        returned_candidate(candidate),
    ensures
        evaluation(candidate, allowed, answers).is_none(),
{
}

/// The first character that a run of UTF-16 code units decodes to, as
/// `char::decode_utf16` yields it: none for an empty run, and no character
/// where the run starts with an unpaired surrogate.
pub uninterp spec fn first_decoded(units: Seq<u16>) -> Option<Option<char>>;

/// `char::decode_utf16`, its first item: the first character of the run, or
/// none where the run starts with an unpaired surrogate; nothing for an empty
/// run.
#[verifier::external_body]
fn first_utf16(units: &[u16]) -> (first: Option<Option<char>>)
    ensures
        first == first_decoded(units@),
{
    match core::char::decode_utf16(units.iter().copied()).next() {
        Some(Ok(c)) => Some(Some(c)),
        Some(Err(_)) => Some(None),
        None => None,
    }
}

/// What the decoding of a first item hands on: the character, if there is
/// one.
pub fn decoded_char(first: Option<Option<char>>) -> (code: Option<char>)
    ensures
        code == (match first {
            Some(Some(c)) => Some(c),
            _ => None,
        }),
{
    match first {
        Some(Some(c)) => Some(c),
        _ => None,
    }
}

/// A traversal that is handed on inside an expression: a function takes it
/// as its argument, and nothing consumes it in the chain.
pub fn iter_returned_not_top_level() {
    let mut units: Vec<u16> = Vec::new();
    units.push(1234);
    units.push(1232);
    match decoded_char(first_utf16(units.as_slice())) {
        Some(code) => code,
        _ => {
            return ;
        },
    };
}

/// The candidate that `iter_returned_not_top_level` holds: the call of `iter`
/// on an array, with `copied` chained to it, whose result a function takes.
pub open spec fn handed_on_candidate(candidate: Candidate) -> bool {
    &&& candidate.method@ == "iter"@
    &&& candidate.has_parallel_counterpart
    &&& candidate.chain@.len() == 1
    &&& candidate.chain@[0].name@ == "copied"@
    &&& candidate.chain@[0].args@.len() == 0
    &&& candidate.chain@[0].observed_as_container
}

/// Makes the candidate that `iter_returned_not_top_level` holds; `span` is
/// where the call of `iter` stands, and the chain ends at `end`.
pub fn iter_returned_not_top_level_candidate(span: Span, end: usize) -> (candidate: Candidate)
    ensures
        handed_on_candidate(candidate),
        candidate.span == span,
        candidate.chain@[0].span == (Span { lo: span.lo, hi: end }),
        !candidate.observed_as_container,
        !candidate.in_unsafe_region,
{
    let mut chain: Vec<AdapterCall> = Vec::new();
    chain.push(
        AdapterCall {
            name: "copied".to_owned(),
            args: Vec::new(),
            span: Span { lo: span.lo, hi: end },
            observed_as_container: true,
        },
    );
    Candidate {
        method: "iter".to_owned(),
        has_parallel_counterpart: true,
        span,
        observed_as_container: false,
        in_unsafe_region: false,
        chain,
    }
}

/// A traversal that is handed on to a function is not handed to the
/// concurrent traversal where `copied` is an adapter, whatever the oracle
/// answers.
pub proof fn lemma_handed_on_is_rejected(
    candidate: Candidate,
    allowed: Set<Seq<char>>,
    answers: Map<u64, TypeCapability>,
)
    requires
        handed_on_candidate(candidate),
        allowed.contains("copied"@),
    ensures
        evaluation(candidate, allowed, answers).is_none(),
{
    reveal_strlit("copied");
    reveal_strlit("iter");
    reveal_strlit("into_iter");
    reveal_strlit("iter_mut");
    let chain = candidate.chain@;
    assert("copied"@.len() == 6);
    assert("iter"@.len() == 4);
    assert("into_iter"@.len() == 9);
    assert("iter_mut"@.len() == 8);
    assert(crate::chain::extends(chain[0], allowed));
    assert(crate::chain::accepted_from(chain, allowed, 1) == 1);
    assert(crate::chain::accepted_len(chain, allowed) == 1);
}

} // verus!
