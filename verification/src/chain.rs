use crate::adapters::AllowedAdapterSet;
use crate::adapters::EntryPoint;
use crate::adapters::is_entry_name;
use crate::adapters::generate_suggestion;
use crate::adapters::same_name;
use crate::text::replaced;
use crate::capability::TypeCapability;
use crate::capability::TypeOracle;
use crate::syntax::BorrowKind;
use crate::syntax::Effect;
use crate::syntax::Expr;
use crate::syntax::ExprKind;
use crate::usage::Usage;
use crate::usage::steps_of;
use crate::validity::convertible;
use crate::validity::is_convertible;
use crate::variable_check::MutablyUsedVariablesCtxt;
use crate::variable_check::variables_safe;
use vstd::prelude::*;

verus! {

/// A stretch of source text, by the offsets of its first byte and of the byte
/// after its last.
#[derive(Clone, Copy, Debug, PartialEq, Eq, Structural)]
pub struct Span {
    pub lo: usize,
    pub hi: usize,
}

impl Span {
    /// The stretch that holds this one and `end`.
    pub open spec fn joined(self, end: Span) -> Span {
        Span {
            lo: if self.lo <= end.lo {
                self.lo
            } else {
                end.lo
            },
            hi: if self.hi >= end.hi {
                self.hi
            } else {
                end.hi
            },
        }
    }

    /// The stretch that holds this one and `end`.
    pub fn to(&self, end: &Span) -> (both: Span)
        ensures
            both == self.joined(*end),
    {
        Span {
            lo: if self.lo <= end.lo {
                self.lo
            } else {
                end.lo
            },
            hi: if self.hi >= end.hi {
                self.hi
            } else {
                end.hi
            },
        }
    }
}

/// One call in a chain of adapters. Its receiver is the call before it in the
/// chain, its parent the call after it.
pub struct AdapterCall {
    /// The adapter's name.
    pub name: String,
    /// The arguments of the call.
    pub args: Vec<Expr>,
    /// The call, from the start of the chain's source to the end of its own
    /// arguments.
    pub span: Span,
    /// The call's result is used where it is observed as an ordered container
    /// with an identity of its own.
    pub observed_as_container: bool,
}

/// An expression that produces a sequential traversal, with the calls that are
/// chained to it.
pub struct Candidate {
    /// The name of the method that starts the traversal.
    pub method: String,
    /// The source of the traversal has a concurrent counterpart.
    pub has_parallel_counterpart: bool,
    /// The expression itself.
    pub span: Span,
    /// The expression's result is used where it is observed as an ordered
    /// container with an identity of its own.
    pub observed_as_container: bool,
    /// The expression lies in an unsafe region.
    pub in_unsafe_region: bool,
    /// The calls chained to the expression, the innermost first.
    pub chain: Vec<AdapterCall>,
}

/// The part of a chain that can be handed to the concurrent traversal.
#[derive(Clone, Copy, Debug, PartialEq, Eq, Structural)]
pub struct RewriteSpan {
    /// From the start of the candidate to the end of the last call that is
    /// taken along.
    pub span: Span,
    /// How many calls of the chain are taken along.
    pub calls: usize,
    /// The entry point that the rewrite replaces.
    pub entry: EntryPoint,
}

/// The name is that of a method that appends in place to its receiver.
pub open spec fn is_append_name(name: Seq<char>) -> bool {
    name == "push"@ || name == "push_back"@ || name == "push_front"@ || name == "insert"@ || name
        == "extend"@
}

/// Whether the name is that of a method that appends in place to its receiver.
pub fn is_append(name: &str) -> (append: bool)
    ensures
        append == is_append_name(name@),
{
    same_name(name, "push") || same_name(name, "push_back") || same_name(name, "push_front")
        || same_name(name, "insert") || same_name(name, "extend")
}

/// The variable that the expression appends to in place, if it is a call of an
/// appending method on an exclusive borrow of a variable.
pub open spec fn append_target(e: Expr) -> Option<u64> {
    match e.kind {
        ExprKind::MethodCall(name) => if is_append_name(name@) && e.children@.len() > 0 {
            match e.children@[0].kind {
                ExprKind::Touch(Effect::Borrow(place, BorrowKind::Exclusive)) => place.base.binding(),
                _ => None,
            }
        } else {
            None
        },
        _ => None,
    }
}

/// The variables that the expression appends to, as a sequence of at most one.
pub open spec fn own_target(e: Expr) -> Seq<u64> {
    match append_target(e) {
        Some(var) => seq![var],
        None => Seq::empty(),
    }
}

/// The variables that are appended to in place anywhere in the expression, in
/// the order of the walk.
pub open spec fn targets_of(e: Expr) -> Seq<u64>
    decreases e, 0nat,
{
    own_target(e) + targets_among(e.children@, e.children@.len())
}

/// The variables that are appended to in place in the first `n` expressions.
pub open spec fn targets_among(es: Seq<Expr>, n: nat) -> Seq<u64>
    decreases es, n,
{
    if n == 0 || n > es.len() {
        Seq::empty()
    } else {
        targets_among(es, (n - 1) as nat) + targets_of(es[n - 1])
    }
}

/// The variable that the expression appends to in place, if it does.
pub fn find_append_target(e: &Expr) -> (target: Option<u64>)
    ensures
        target == append_target(*e),
{
    match &e.kind {
        ExprKind::MethodCall(name) => {
            if is_append(name.as_str()) && e.children.len() > 0 {
                match &e.children[0].kind {
                    ExprKind::Touch(Effect::Borrow(place, BorrowKind::Exclusive)) => place.base.variable(),
                    _ => None,
                }
            } else {
                None
            }
        },
        _ => None,
    }
}

/// Adds to `out` the variables that are appended to in place anywhere in the
/// expression.
pub fn collect_append_targets(e: &Expr, out: &mut Vec<u64>)
    ensures
        final(out)@ == old(out)@ + targets_of(*e),
    decreases e,
{
    if let Some(var) = find_append_target(e) {
        out.push(var);
    }
    assert(out@ =~= old(out)@ + own_target(*e));
    let mut i: usize = 0;
    while i < e.children.len()
        invariant
            i <= e.children@.len(),
            out@ == old(out)@ + own_target(*e) + targets_among(e.children@, i as nat),
        decreases e.children@.len() - i,
    {
        collect_append_targets(&e.children[i], out);
        assert(out@ =~= old(out)@ + own_target(*e) + targets_among(
            e.children@,
            (i + 1) as nat,
        ));
        i = i + 1;
    }
    assert(out@ =~= old(out)@ + targets_of(*e));
}

/// One of the variables that the body appends to in place is a variable from
/// outside that it may not share.
pub open spec fn accumulates_in_place(usage: Usage, targets: Seq<u64>) -> bool {
    exists|i: int| 0 <= i < targets.len() && usage.unsafe_set().contains(#[trigger] targets[i])
}

/// A closure in a chain can be run concurrently: nothing in its body stands in
/// the way of the rewrite, the variables from outside that it may not share have
/// types that may cross the concurrency boundary, and it does not append in
/// place to any of them.
pub open spec fn closure_passes(
    closure: Expr,
    answers: Map<u64, TypeCapability>,
    in_unsafe: bool,
) -> bool {
    let usage = Usage::empty().run(steps_of(closure, in_unsafe));
    &&& forall|i: int|
        0 <= i < closure.children@.len() ==> convertible(#[trigger] closure.children@[i])
    &&& variables_safe(usage, answers)
    &&& !accumulates_in_place(usage, targets_of(closure))
}

/// An argument of a call in a chain passes unless it is a closure that does
/// not.
pub open spec fn arg_passes(arg: Expr, answers: Map<u64, TypeCapability>, in_unsafe: bool) -> bool {
    arg.kind is Closure ==> closure_passes(arg, answers, in_unsafe)
}

/// All the arguments of the call pass.
pub open spec fn call_passes(
    call: AdapterCall,
    answers: Map<u64, TypeCapability>,
    in_unsafe: bool,
) -> bool {
    forall|i: int|
        0 <= i < call.args@.len() ==> arg_passes(#[trigger] call.args@[i], answers, in_unsafe)
}

/// Whether a closure in a chain can be run concurrently; `in_unsafe` says that
/// the chain lies in an unsafe region.
pub fn check_closure(closure: &Expr, oracle: &TypeOracle, in_unsafe: bool) -> (passes: bool)
    ensures
        passes == closure_passes(*closure, oracle@, in_unsafe),
{
    let mut i: usize = 0;
    while i < closure.children.len()
        invariant
            i <= closure.children@.len(),
            forall|j: int| 0 <= j < i ==> convertible(#[trigger] closure.children@[j]),
        decreases closure.children@.len() - i,
    {
        if !is_convertible(&closure.children[i]).valid {
            return false;
        }
        i = i + 1;
    }
    let mut ctx = MutablyUsedVariablesCtxt::new();
    ctx.walk(closure, in_unsafe);
    if !ctx.all_safe(oracle) {
        return false;
    }
    let mut targets: Vec<u64> = Vec::new();
    collect_append_targets(closure, &mut targets);
    assert(targets@ =~= targets_of(*closure));
    let mut k: usize = 0;
    while k < targets.len()
        invariant
            k <= targets@.len(),
            targets@ == targets_of(*closure),
            ctx@ == Usage::empty().run(steps_of(*closure, in_unsafe)),
            forall|j: int| 0 <= j < k ==> !ctx@.unsafe_set().contains(#[trigger] targets@[j]),
        decreases targets@.len() - k,
    {
        if ctx.is_unsafe_var(targets[k]) {
            assert(ctx@.unsafe_set().contains(targets@[k as int]));
            assert(accumulates_in_place(ctx@, targets@));
            return false;
        }
        k = k + 1;
    }
    true
}

/// Whether all the arguments of a call pass; `in_unsafe` says that the chain
/// lies in an unsafe region.
pub fn check_call(call: &AdapterCall, oracle: &TypeOracle, in_unsafe: bool) -> (passes: bool)
    ensures
        passes == call_passes(*call, oracle@, in_unsafe),
{
    let mut i: usize = 0;
    while i < call.args.len()
        invariant
            i <= call.args@.len(),
            forall|j: int| 0 <= j < i ==> arg_passes(#[trigger] call.args@[j], oracle@, in_unsafe),
        decreases call.args@.len() - i,
    {
        let is_closure = match &call.args[i].kind {
            ExprKind::Closure(_) => true,
            _ => false,
        };
        if is_closure && !check_closure(&call.args[i], oracle, in_unsafe) {
            return false;
        }
        i = i + 1;
    }
    true
}

/// The call carries the chain on: its name is an allowed adapter and starts no
/// traversal of its own.
pub open spec fn extends(call: AdapterCall, allowed: Set<Seq<char>>) -> bool {
    allowed.contains(call.name@) && !is_entry_name(call.name@)
}

/// Where a walk outward from call `from` stops: at the first call that does
/// not carry the chain on, or at the chain's end.
pub open spec fn accepted_from(chain: Seq<AdapterCall>, allowed: Set<Seq<char>>, from: nat) -> nat
    decreases chain.len() - from,
{
    if from >= chain.len() || !extends(chain[from as int], allowed) {
        from
    } else {
        accepted_from(chain, allowed, from + 1)
    }
}

/// How many calls of the chain are taken along.
pub open spec fn accepted_len(chain: Seq<AdapterCall>, allowed: Set<Seq<char>>) -> nat {
    accepted_from(chain, allowed, 0)
}

/// Whether the outermost expression that is taken along is observed as an
/// ordered container.
pub open spec fn terminal_observed(candidate: Candidate, calls: nat) -> bool {
    if calls == 0 || calls > candidate.chain@.len() {
        candidate.observed_as_container
    } else {
        candidate.chain@[calls - 1].observed_as_container
    }
}

/// Where the part that is taken along ends.
pub open spec fn terminal_hi(candidate: Candidate, calls: nat) -> usize {
    if calls == 0 || calls > candidate.chain@.len() {
        candidate.span.hi
    } else {
        candidate.chain@[calls - 1].span.hi
    }
}

/// What the engine decides on a candidate.
pub open spec fn evaluation(
    candidate: Candidate,
    allowed: Set<Seq<char>>,
    answers: Map<u64, TypeCapability>,
) -> Option<RewriteSpan> {
    let calls = accepted_len(candidate.chain@, allowed);
    match EntryPoint::of_name(candidate.method@) {
        None => None,
        Some(entry) => if !candidate.has_parallel_counterpart {
            None
        } else if exists|i: int|
            0 <= i < calls && !call_passes(
                #[trigger] candidate.chain@[i],
                answers,
                candidate.in_unsafe_region,
            ) {
            None
        } else if terminal_observed(candidate, calls) {
            None
        } else {
            Some(
                RewriteSpan {
                    span: Span { lo: candidate.span.lo, hi: terminal_hi(candidate, calls) },
                    calls: calls as usize,
                    entry,
                },
            )
        },
    }
}

/// A walk outward stops no earlier than it starts, and within the chain.
pub proof fn lemma_accepted_bounds(chain: Seq<AdapterCall>, allowed: Set<Seq<char>>, from: nat)
    requires
        from <= chain.len(),
    ensures
        from <= accepted_from(chain, allowed, from) <= chain.len(),
    decreases chain.len() - from,
{
    if from < chain.len() && extends(chain[from as int], allowed) {
        lemma_accepted_bounds(chain, allowed, from + 1);
    }
}

/// The calls that are taken along are the longest unbroken run from the
/// candidate outward: each of them carries the chain on, and the call after them,
/// if there is one, does not.
pub proof fn lemma_accepted_is_maximal(chain: Seq<AdapterCall>, allowed: Set<Seq<char>>)
    ensures
        accepted_len(chain, allowed) <= chain.len(),
        forall|i: int|
            0 <= i < accepted_len(chain, allowed) ==> extends(#[trigger] chain[i], allowed),
        accepted_len(chain, allowed) < chain.len() ==> !extends(
            chain[accepted_len(chain, allowed) as int],
            allowed,
        ),
{
    lemma_accepted_run(chain, allowed, 0);
}

/// From wherever a walk outward starts, every call up to where it stops carries
/// the chain on, and the call at which it stops does not.
pub proof fn lemma_accepted_run(chain: Seq<AdapterCall>, allowed: Set<Seq<char>>, from: nat)
    requires
        from <= chain.len(),
    ensures
        from <= accepted_from(chain, allowed, from) <= chain.len(),
        forall|i: int|
            from <= i < accepted_from(chain, allowed, from) ==> extends(
                #[trigger] chain[i],
                allowed,
            ),
        accepted_from(chain, allowed, from) < chain.len() ==> !extends(
            chain[accepted_from(chain, allowed, from) as int],
            allowed,
        ),
    decreases chain.len() - from,
{
    if from < chain.len() && extends(chain[from as int], allowed) {
        lemma_accepted_run(chain, allowed, from + 1);
    }
}

/// Decides whether the candidate, with as many of its chained calls as carry
/// the chain on, can be handed to the concurrent traversal, and how far the
/// rewrite reaches.
pub fn evaluate(candidate: &Candidate, allowed: &AllowedAdapterSet, oracle: &TypeOracle) -> (found:
    Option<RewriteSpan>)
    ensures
        found == evaluation(*candidate, allowed@, oracle@),
{
    let entry = match EntryPoint::from_name(candidate.method.as_str()) {
        Some(entry) => entry,
        None => {
            return None;
        },
    };
    if !candidate.has_parallel_counterpart {
        return None;
    }
    let ghost chain = candidate.chain@;
    let mut calls: usize = 0;
    let mut open = true;
    while open && calls < candidate.chain.len()
        invariant
            chain == candidate.chain@,
            calls <= chain.len(),
            accepted_from(chain, allowed@, calls as nat) == accepted_len(chain, allowed@),
            forall|j: int|
                0 <= j < calls ==> call_passes(
                    #[trigger] chain[j],
                    oracle@,
                    candidate.in_unsafe_region,
                ),
            !open ==> calls < chain.len() && !extends(chain[calls as int], allowed@),
        decreases (if open { 1int } else { 0int }) + chain.len() - calls,
    {
        let call = &candidate.chain[calls];
        let carries = allowed.contains(call.name.as_str()) && EntryPoint::from_name(
            call.name.as_str(),
        ).is_none();
        if !carries {
            open = false;
        } else {
            proof {
                lemma_accepted_bounds(chain, allowed@, (calls + 1) as nat);
            }
            if !check_call(call, oracle, candidate.in_unsafe_region) {
                return None;
            }
            calls = calls + 1;
        }
    }
    assert(calls == accepted_len(chain, allowed@));
    let observed = if calls == 0 {
        candidate.observed_as_container
    } else {
        candidate.chain[calls - 1].observed_as_container
    };
    if observed {
        return None;
    }
    let hi = if calls == 0 {
        candidate.span.hi
    } else {
        candidate.chain[calls - 1].span.hi
    };
    Some(RewriteSpan { span: Span { lo: candidate.span.lo, hi }, calls, entry })
}

/// The rewrite to offer for a candidate: the source text of the candidate with
/// the concurrent entry point in place of the sequential one, and how far along
/// the chain the concurrent traversal reaches.
pub struct Suggestion {
    /// The text to replace: the candidate itself.
    pub span: Span,
    /// The text to put there.
    pub replacement: String,
    /// The part of the chain that is handed to the concurrent traversal.
    pub accepted: RewriteSpan,
}

/// What is offered for a candidate whose source text is `snippet`.
pub open spec fn offer(
    candidate: Candidate,
    allowed: Set<Seq<char>>,
    answers: Map<u64, TypeCapability>,
    snippet: Seq<char>,
    found: Option<Suggestion>,
) -> bool {
    match evaluation(candidate, allowed, answers) {
        None => found.is_none(),
        Some(accepted) => found matches Some(s) && s.span == candidate.span && s.accepted
            == accepted && s.replacement@ == replaced(
            snippet,
            candidate.method@,
            accepted.entry.parallel(),
        ),
    }
}

/// Decides on a candidate and, where it can be handed to the concurrent
/// traversal, writes the rewrite of its source text.
pub fn check_expr(
    candidate: &Candidate,
    allowed: &AllowedAdapterSet,
    oracle: &TypeOracle,
    snippet: &str,
) -> (found: Option<Suggestion>)
    ensures
        offer(*candidate, allowed@, oracle@, snippet@, found),
{
    match evaluate(candidate, allowed, oracle) {
        None => None,
        Some(accepted) => match generate_suggestion(candidate.method.as_str(), snippet) {
            Some(replacement) => Some(Suggestion { span: candidate.span, replacement, accepted }),
            None => None,
        },
    }
}

} // verus!
