use crate::syntax::Expr;
use crate::syntax::ExprKind;
use crate::syntax::ReturnFacts;
use crate::syntax::ReturnShape;
use crate::syntax::occurs_in;
use vstd::prelude::*;

verus! {

/// How a body leaves the function that holds it.
#[derive(Clone, Copy, Debug, PartialEq, Eq, Structural)]
pub enum Exit {
    /// The body holds no `return`.
    Stays,
    /// Every `return` of the body hands back nothing.
    Bare,
    /// Every `return` of the body hands back a value of the optional type.
    Option,
    /// Every `return` of the body hands back a value of the fallible type.
    Result,
    /// The body returns a value of another type, or in more than one of these
    /// ways.
    Other,
}

/// What the walk over a body found.
#[derive(Clone, Copy, Debug, PartialEq, Eq, Structural)]
pub struct Convertibility {
    /// The body holds nothing that stands in the way of the rewrite.
    pub valid: bool,
    /// The body is valid and holds a `continue` without a label, which the
    /// rewrite turns into an early exit from the closure.
    pub has_unlabeled_continue: bool,
    /// How a valid body leaves its function; `Exit::Stays` for a body that is
    /// not valid.
    pub exit: Exit,
}

/// A `return` can stay when it hands back nothing, or a value that is known to
/// be the failure of a short-circuiting type: its empty or failure constructor,
/// or a failure passed through.
pub open spec fn return_allowed(facts: Option<ReturnFacts>) -> bool {
    match facts {
        None => true,
        Some(f) => f.short_circuits && match f.shape {
            ReturnShape::Path => f.is_option && f.is_none,
            ReturnShape::PathCall => (f.is_result && f.is_err) || f.is_from_residual,
            ReturnShape::Other => false,
        },
    }
}

/// How a single `return` leaves the function: by the type of its value, where
/// it has one.
pub open spec fn return_exit(facts: Option<ReturnFacts>) -> Exit {
    match facts {
        None => Exit::Bare,
        Some(f) => if f.is_option {
            Exit::Option
        } else if f.is_result {
            Exit::Result
        } else {
            Exit::Other
        },
    }
}

/// How a node of this kind by itself leaves the function.
pub open spec fn kind_exit(kind: ExprKind) -> Exit {
    match kind {
        ExprKind::Return(facts) => return_exit(facts),
        _ => Exit::Stays,
    }
}

/// How two parts of a body together leave the function: as either does where
/// the other does not return or returns in the same way.
pub open spec fn both_exits(a: Exit, b: Exit) -> Exit {
    if a == Exit::Stays {
        b
    } else if b == Exit::Stays || a == b {
        a
    } else {
        Exit::Other
    }
}

/// How an expression leaves the function, all its `return`s taken together.
pub open spec fn exit_of(e: Expr) -> Exit
    decreases e, 0nat,
{
    both_exits(kind_exit(e.kind), exit_among(e.children@, e.children@.len()))
}

/// How the first `n` expressions together leave the function.
pub open spec fn exit_among(es: Seq<Expr>, n: nat) -> Exit
    decreases es, n,
{
    if n == 0 || n > es.len() {
        Exit::Stays
    } else {
        both_exits(exit_among(es, (n - 1) as nat), exit_of(es[n - 1]))
    }
}

/// A node of this kind does not by itself stand in the way of the rewrite.
pub open spec fn kind_allowed(kind: ExprKind) -> bool {
    match kind {
        ExprKind::Loop => false,
        ExprKind::Closure(_) => false,
        ExprKind::Break(_) => false,
        ExprKind::Await => false,
        ExprKind::Continue(labeled) => !labeled,
        ExprKind::Return(facts) => return_allowed(facts),
        _ => true,
    }
}

/// Nothing in the expression stands in the way of the rewrite.
pub open spec fn convertible(e: Expr) -> bool
    decreases e,
{
    kind_allowed(e.kind) && forall|i: int|
        0 <= i < e.children@.len() ==> convertible(#[trigger] e.children@[i])
}

/// The kind is that of a `continue` without a label.
pub open spec fn plain_continue(kind: ExprKind) -> bool {
    kind matches ExprKind::Continue(labeled) && !labeled
}

/// The expression holds a `continue` without a label.
pub open spec fn holds_continue(e: Expr) -> bool
    decreases e, 0nat,
{
    plain_continue(e.kind) || continue_among(e.children@, e.children@.len())
}

/// One of the first `n` expressions holds a `continue` without a label.
pub open spec fn continue_among(es: Seq<Expr>, n: nat) -> bool
    decreases es, n,
{
    n > 0 && n <= es.len() && (continue_among(es, (n - 1) as nat) || holds_continue(es[n - 1]))
}

/// The expression holds a `return`, at any depth.
pub open spec fn holds_return(e: Expr) -> bool {
    exists|part: Expr| occurs_in(part, e) && part.kind is Return
}

/// The expression holds a `return` without a value, at any depth.
pub open spec fn holds_bare_return(e: Expr) -> bool {
    exists|part: Expr| occurs_in(part, e) && part.kind == ExprKind::Return(None)
}

/// The verdict on a body.
pub open spec fn verdict(body: Expr) -> Convertibility {
    Convertibility {
        valid: convertible(body),
        has_unlabeled_continue: convertible(body) && holds_continue(body),
        exit: if convertible(body) {
            exit_of(body)
        } else {
            Exit::Stays
        },
    }
}

/// Whether a `return` with these facts can stay.
pub fn is_return_allowed(facts: &Option<ReturnFacts>) -> (allowed: bool)
    ensures
        allowed == return_allowed(*facts),
{
    match facts {
        None => true,
        Some(f) => f.short_circuits && match f.shape {
            ReturnShape::Path => f.is_option && f.is_none,
            ReturnShape::PathCall => (f.is_result && f.is_err) || f.is_from_residual,
            ReturnShape::Other => false,
        },
    }
}

/// Whether a node of this kind can stay.
pub fn is_kind_allowed(kind: &ExprKind) -> (allowed: bool)
    ensures
        allowed == kind_allowed(*kind),
{
    match kind {
        ExprKind::Loop => false,
        ExprKind::Closure(_) => false,
        ExprKind::Break(_) => false,
        ExprKind::Await => false,
        ExprKind::Continue(labeled) => !*labeled,
        ExprKind::Return(facts) => is_return_allowed(facts),
        _ => true,
    }
}

/// How a node of this kind by itself leaves the function.
pub fn exit_of_kind(kind: &ExprKind) -> (exit: Exit)
    ensures
        exit == kind_exit(*kind),
{
    match kind {
        ExprKind::Return(None) => Exit::Bare,
        ExprKind::Return(Some(f)) => if f.is_option {
            Exit::Option
        } else if f.is_result {
            Exit::Result
        } else {
            Exit::Other
        },
        _ => Exit::Stays,
    }
}

/// How two parts of a body together leave the function.
pub fn join_exits(a: Exit, b: Exit) -> (both: Exit)
    ensures
        both == both_exits(a, b),
{
    if a == Exit::Stays {
        b
    } else if b == Exit::Stays || a == b {
        a
    } else {
        Exit::Other
    }
}

/// Walks a body once, from front to back, and stops at the first construct that
/// the rewrite cannot keep.
pub fn is_convertible(body: &Expr) -> (found: Convertibility)
    ensures
        found == verdict(*body),
    decreases body,
{
    let rejected = Convertibility { valid: false, has_unlabeled_continue: false, exit: Exit::Stays };
    if !is_kind_allowed(&body.kind) {
        return rejected;
    }
    let mut seen: bool = match &body.kind {
        ExprKind::Continue(labeled) => !*labeled,
        _ => false,
    };
    let mut exit = Exit::Stays;
    let mut i: usize = 0;
    while i < body.children.len()
        invariant
            i <= body.children@.len(),
            forall|j: int| 0 <= j < i ==> convertible(#[trigger] body.children@[j]),
            seen == (plain_continue(body.kind) || continue_among(body.children@, i as nat)),
            exit == exit_among(body.children@, i as nat),
        decreases body.children@.len() - i,
    {
        let inner = is_convertible(&body.children[i]);
        if !inner.valid {
            return Convertibility {
                valid: false,
                has_unlabeled_continue: false,
                exit: Exit::Stays,
            };
        }
        seen = seen || inner.has_unlabeled_continue;
        exit = join_exits(exit, inner.exit);
        i = i + 1;
    }
    Convertibility {
        valid: true,
        has_unlabeled_continue: seen,
        exit: join_exits(exit_of_kind(&body.kind), exit),
    }
}

/// The state of a walk over one body or several: whether everything met so
/// far can stay, whether a `continue` without a label was met, and how what was
/// met leaves the function.
pub struct Validator {
    pub is_valid: bool,
    pub has_continue: bool,
    pub exit: Exit,
}

impl Validator {
    /// The state before the walk: nothing was met.
    pub fn new() -> (v: Validator)
        ensures
            v.is_valid,
            !v.has_continue,
            v.exit == Exit::Stays,
    {
        Validator { is_valid: true, has_continue: false, exit: Exit::Stays }
    }

    /// Walks an expression. Once something was met that cannot stay, the state
    /// no longer changes; until then the expression's verdict is added to it.
    pub fn visit_expr(&mut self, ex: &Expr)
        ensures
            final(self).is_valid == (old(self).is_valid && convertible(*ex)),
            final(self).has_continue == (old(self).has_continue || (old(self).is_valid
                && verdict(*ex).has_unlabeled_continue)),
            final(self).exit == (if old(self).is_valid {
                both_exits(old(self).exit, verdict(*ex).exit)
            } else {
                old(self).exit
            }),
    {
        if !self.is_valid {
            return ;
        }
        let found = is_convertible(ex);
        self.is_valid = found.valid;
        self.has_continue = self.has_continue || found.has_unlabeled_continue;
        self.exit = join_exits(self.exit, found.exit);
    }
}

/// The kinds that no convertible body holds: a loop, a closure, a `break`, a
/// `continue` with a label, and a suspension point.
pub open spec fn forbidden(kind: ExprKind) -> bool {
    match kind {
        ExprKind::Loop => true,
        ExprKind::Closure(_) => true,
        ExprKind::Break(_) => true,
        ExprKind::Await => true,
        ExprKind::Continue(labeled) => labeled,
        _ => false,
    }
}

/// A body that holds a nested loop, a nested closure, a `break`, a labelled
/// `continue` or a suspension point, at any depth, is not convertible.
pub proof fn lemma_forbidden_construct_rejects(body: Expr, part: Expr)
    requires
        occurs_in(part, body),
        forbidden(part.kind),
    ensures
        !convertible(body),
        !verdict(body).valid,
    decreases body,
{
    if part != body {
        let i = choose|i: int|
            0 <= i < body.children@.len() && occurs_in(part, #[trigger] body.children@[i]);
        lemma_forbidden_construct_rejects(body.children@[i], part);
    }
}

/// A `return` whose value is not known to be a failure makes the body that
/// holds it not convertible.
pub proof fn lemma_unknown_return_rejects(body: Expr, part: Expr, facts: Option<ReturnFacts>)
    requires
        occurs_in(part, body),
        part.kind == ExprKind::Return(facts),
        !return_allowed(facts),
    ensures
        !convertible(body),
    decreases body,
{
    if part != body {
        let i = choose|i: int|
            0 <= i < body.children@.len() && occurs_in(part, #[trigger] body.children@[i]);
        lemma_unknown_return_rejects(body.children@[i], part, facts);
    }
}

/// Parts that together do not return do not return one by one.
pub proof fn lemma_exit_among_none(es: Seq<Expr>, n: nat, i: int)
    requires
        0 <= i < n <= es.len(),
        exit_among(es, n) == Exit::Stays,
    ensures
        exit_of(es[i]) == Exit::Stays,
    decreases n,
{
    if i < n - 1 {
        lemma_exit_among_none(es, (n - 1) as nat, i);
    }
}

/// Parts of which one returns return together.
pub proof fn lemma_exit_among_some(es: Seq<Expr>, n: nat, i: int)
    requires
        0 <= i < n <= es.len(),
        exit_of(es[i]) != Exit::Stays,
    ensures
        exit_among(es, n) != Exit::Stays,
        (exit_of(es[i]) == Exit::Bare || exit_of(es[i]) == Exit::Other) ==> (exit_among(es, n)
            == Exit::Bare || exit_among(es, n) == Exit::Other),
        exit_of(es[i]) == Exit::Other ==> exit_among(es, n) == Exit::Other,
    decreases n,
{
    if i < n - 1 {
        lemma_exit_among_some(es, (n - 1) as nat, i);
    }
}

/// A body leaves its function in no way exactly if it holds no `return`.
pub proof fn lemma_exit_none_iff_no_return(body: Expr)
    ensures
        exit_of(body) == Exit::Stays <==> !holds_return(body),
    decreases body,
{
    let n = body.children@.len();
    if exit_of(body) == Exit::Stays {
        if holds_return(body) {
            let part = choose|part: Expr| occurs_in(part, body) && part.kind is Return;
            if part != body {
                let i = choose|i: int| 0 <= i < n && occurs_in(part, #[trigger] body.children@[i]);
                lemma_exit_among_none(body.children@, n, i);
                lemma_exit_none_iff_no_return(body.children@[i]);
                assert(occurs_in(part, body.children@[i]) && part.kind is Return);
            }
        }
    } else {
        if kind_exit(body.kind) != Exit::Stays {
            assert(occurs_in(body, body) && body.kind is Return);
        } else {
            let i = lemma_exit_among_witness(body.children@, n);
            lemma_exit_none_iff_no_return(body.children@[i]);
            let part = choose|part: Expr| occurs_in(part, body.children@[i]) && part.kind is Return;
            assert(occurs_in(part, body) && part.kind is Return);
        }
    }
}

/// Parts that together return hold one that returns.
pub proof fn lemma_exit_among_witness(es: Seq<Expr>, n: nat) -> (i: int)
    requires
        n <= es.len(),
        exit_among(es, n) != Exit::Stays,
    ensures
        0 <= i < n,
        exit_of(es[i]) != Exit::Stays,
    decreases n,
{
    if exit_of(es[n - 1]) != Exit::Stays {
        n - 1
    } else {
        lemma_exit_among_witness(es, (n - 1) as nat)
    }
}

/// A body that holds a `return` without a value leaves its function with
/// nothing, or in more than one way: never as a failure alone.
pub proof fn lemma_bare_return_exit(body: Expr)
    requires
        holds_bare_return(body),
    ensures
        exit_of(body) == Exit::Bare || exit_of(body) == Exit::Other,
    decreases body,
{
    let part = choose|part: Expr| occurs_in(part, body) && part.kind == ExprKind::Return(None);
    let n = body.children@.len();
    if part != body {
        let i = choose|i: int| 0 <= i < n && occurs_in(part, #[trigger] body.children@[i]);
        assert(holds_bare_return(body.children@[i]));
        lemma_bare_return_exit(body.children@[i]);
        lemma_exit_among_some(body.children@, n, i);
    } else {
        if exit_among(body.children@, n) != Exit::Stays {
        }
    }
}

} // verus!
