use crate::adapters::EntryPoint;
use crate::adapters::same_name;
use crate::chain::Span;
use crate::text::join;
use crate::text::joined;
use crate::text::replace_text;
use crate::text::replaced;
use crate::text::texts;
use crate::utils::Node;
use crate::utils::NodeKind;
use crate::utils::StmtKind;
use vstd::prelude::*;

verus! {

/// The renaming that a method call asks for: where its name stands and the
/// entry point that it is, if it starts a sequential traversal.
pub open spec fn own_renaming(e: Node) -> Seq<(Span, EntryPoint)> {
    match e.kind {
        NodeKind::MethodCall(name, at, _, _) => match EntryPoint::of_name(name@) {
            Some(entry) => seq![(at, entry)],
            None => Seq::empty(),
        },
        _ => Seq::empty(),
    }
}

/// The renamings in a chain of method calls: of each call, then of its
/// receiver, then of its arguments in turn. What is no method call is not
/// entered.
pub open spec fn renamings_of(e: Node) -> Seq<(Span, EntryPoint)>
    decreases e, 0nat,
{
    match e.kind {
        NodeKind::MethodCall(name, at, receiver, args) => own_renaming(e) + renamings_of(*receiver)
            + renamings_among(args@, args@.len()),
        _ => Seq::empty(),
    }
}

/// The renamings in the first `n` of the expressions.
pub open spec fn renamings_among(es: Seq<Node>, n: nat) -> Seq<(Span, EntryPoint)>
    decreases es, n,
{
    if n == 0 || n > es.len() {
        Seq::empty()
    } else {
        renamings_among(es, (n - 1) as nat) + renamings_of(es[n - 1])
    }
}

/// Collects, along a chain of method calls, the places where a sequential
/// entry point is to be renamed to the concurrent one.
pub struct IterRenaming {
    pub suggestions: Vec<(Span, EntryPoint)>,
}

impl IterRenaming {
    /// A collection without renamings.
    pub fn new() -> (renaming: IterRenaming)
        ensures
            renaming.suggestions@ == Seq::<(Span, EntryPoint)>::empty(),
    {
        IterRenaming { suggestions: Vec::new() }
    }

    /// Adds the renamings in a chain of method calls.
    pub fn traverse_iter_chain(&mut self, expr: &Node)
        ensures
            final(self).suggestions@ == old(self).suggestions@ + renamings_of(*expr),
        decreases expr,
    {
        match &expr.kind {
            NodeKind::MethodCall(name, at, receiver, args) => {
                if let Some(entry) = EntryPoint::from_name(name.as_str()) {
                    self.suggestions.push((*at, entry));
                }
                assert(self.suggestions@ =~= old(self).suggestions@ + own_renaming(*expr));
                self.traverse_iter_chain(receiver);
                self.traverse_all(args);
                assert(self.suggestions@ =~= old(self).suggestions@ + renamings_of(*expr));
            },
            _ => {
                assert(self.suggestions@ =~= old(self).suggestions@ + renamings_of(*expr));
            },
        }
    }

    /// Adds the renamings in each of the expressions in turn.
    pub fn traverse_all(&mut self, exprs: &Vec<Node>)
        ensures
            final(self).suggestions@ == old(self).suggestions@ + renamings_among(
                exprs@,
                exprs@.len(),
            ),
        decreases exprs,
    {
        let mut i: usize = 0;
        assert(self.suggestions@ =~= old(self).suggestions@ + renamings_among(exprs@, 0));
        while i < exprs.len()
            invariant
                i <= exprs@.len(),
                self.suggestions@ == old(self).suggestions@ + renamings_among(exprs@, i as nat),
            decreases exprs@.len() - i,
        {
            self.traverse_iter_chain(&exprs[i]);
            assert(self.suggestions@ =~= old(self).suggestions@ + renamings_among(
                exprs@,
                (i + 1) as nat,
            ));
            i = i + 1;
        }
    }
}

/// The body of a closure ends, before its final expression, in a `push`: it
/// is a block whose last statement is a call of `push` with a semicolon, and
/// that statement is not all there is.
pub open spec fn pushes_last(body: Node) -> bool {
    match body.kind {
        NodeKind::Block(block) => {
            let n = block.stmts@.len();
            n > 0 && !(n == 1 && block.expr.is_none()) && match block.stmts@[n - 1].kind {
                StmtKind::Semi(e) => match e.kind {
                    NodeKind::MethodCall(name, _, _, _) => name@ == "push"@,
                    _ => false,
                },
                _ => false,
            }
        },
        _ => false,
    }
}

/// Whether the body of a closure ends, before its final expression, in a
/// `push`.
pub fn is_pushing_last(body: &Node) -> (pushes: bool)
    ensures
        pushes == pushes_last(*body),
{
    match &body.kind {
        NodeKind::Block(block) => {
            let n = block.stmts.len();
            if n == 0 || (n == 1 && block.expr.is_none()) {
                return false;
            }
            match &block.stmts[n - 1].kind {
                StmtKind::Semi(e) => match &e.kind {
                    NodeKind::MethodCall(name, _, _, _) => same_name(name.as_str(), "push"),
                    _ => false,
                },
                _ => false,
            }
        },
        _ => false,
    }
}

/// A sequential fold into a vector can become a concurrent one where the
/// second argument is a closure that pushes last and the first is a vector.
pub open spec fn folds_into_vec(op: Node, is_vec: bool) -> bool {
    is_vec && match op.kind {
        NodeKind::Closure(body) => pushes_last(*body),
        _ => false,
    }
}

/// Whether a sequential fold into a vector can become a concurrent one; `op`
/// is the second argument of the fold, and `is_vec` says that the first is a
/// vector.
pub fn is_fold_into_vec(op: &Node, is_vec: bool) -> (found: bool)
    ensures
        found == folds_into_vec(*op, is_vec),
{
    match &op.kind {
        NodeKind::Closure(body) => is_pushing_last(body) && is_vec,
        _ => false,
    }
}

/// The block that takes the place of a sequential fold into a vector, before
/// the entry points in it are renamed.
pub open spec fn extend_text(id: Seq<char>, recv: Seq<char>, cls: Seq<char>) -> Seq<char> {
    joined(
        seq![
            "{ "@,
            id,
            ".extend("@,
            recv,
            ".fold(|| Vec::new(), "@,
            cls,
            ").reduce(|| Vec::new(), |mut a, b| { a.extend(b); a })); "@,
            id,
            " }"@,
        ],
    )
}

/// The block that takes the place of a sequential fold into a vector: every
/// call of a sequential entry point without arguments in it starts the
/// concurrent traversal instead.
pub open spec fn par_fold_vec_text(id: Seq<char>, recv: Seq<char>, cls: Seq<char>) -> Seq<char> {
    replaced(
        replaced(
            replaced(extend_text(id, recv, cls), ".iter()"@, ".par_iter()"@),
            ".iter_mut()"@,
            ".par_iter_mut()"@,
        ),
        ".into_iter()"@,
        ".into_par_iter()"@,
    )
}

/// Writes the block that takes the place of a sequential fold into a vector.
pub fn par_fold_vec_suggestion(id: &str, recv: &str, cls: &str) -> (text: String)
    ensures
        text@ == par_fold_vec_text(id@, recv@, cls@),
{
    let parts = vec![
        "{ ",
        id,
        ".extend(",
        recv,
        ".fold(|| Vec::new(), ",
        cls,
        ").reduce(|| Vec::new(), |mut a, b| { a.extend(b); a })); ",
        id,
        " }",
    ];
    assert(texts(parts@) =~= seq![
        "{ "@,
        id@,
        ".extend("@,
        recv@,
        ".fold(|| Vec::new(), "@,
        cls@,
        ").reduce(|| Vec::new(), |mut a, b| { a.extend(b); a })); "@,
        id@,
        " }"@,
    ]);
    let extend = join(&parts);
    proof {
        reveal_strlit(".iter()");
        reveal_strlit(".iter_mut()");
        reveal_strlit(".into_iter()");
    }
    let first = replace_text(extend.as_str(), ".iter()", ".par_iter()");
    let second = replace_text(first.as_str(), ".iter_mut()", ".par_iter_mut()");
    replace_text(second.as_str(), ".into_iter()", ".into_par_iter()")
}

/// The closure that makes the identity of a reduction.
pub open spec fn identity_closure_text(id: Seq<char>) -> Seq<char> {
    joined(seq!["|| "@, id])
}

/// Writes the closure that makes the identity of a reduction.
pub fn identity_closure(id: &str) -> (text: String)
    ensures
        text@ == identity_closure_text(id@),
{
    let parts = vec!["|| ", id];
    assert(texts(parts@) =~= seq!["|| "@, id@]);
    join(&parts)
}

} // verus!
