use crate::chain::Span;
use crate::text::join;
use crate::text::joined;
use crate::text::texts;
use crate::utils::Node;
use crate::utils::NodeKind;
use crate::utils::StmtKind;
use crate::utils::get_pat_expr_and_spans;
use crate::utils::inner_span;
use crate::utils::inner_span_of;
use crate::utils::pat_expr_and_spans;
use vstd::prelude::*;

verus! {

/// The parts of a closure that filters by an `if` without an `else`.
#[derive(Clone, Copy, Debug, PartialEq, Eq, Structural)]
pub struct FilterParts {
    /// The condition.
    pub cond: Span,
    /// What runs where the condition holds, if anything.
    pub then: Option<Span>,
    /// The local definitions before the `if`, if there are any.
    pub local_defs: Option<Span>,
}

/// The parts of a closure that leaves early where a condition holds.
#[derive(Clone, Copy, Debug, PartialEq, Eq, Structural)]
pub struct FlippedParts {
    /// The condition under which the closure leaves.
    pub cond: Span,
    /// What runs where the condition does not hold, if anything.
    pub then: Option<Span>,
    /// What follows the `if`, if anything.
    pub body: Option<Span>,
    /// The local definitions before the `if`, if there are any.
    pub local_defs: Option<Span>,
}

/// The `if` has the shape of a filter: no `else`, a condition that is no
/// `let`, and a block to run.
pub open spec fn filter_of(pat: Node, local_defs: Option<Span>) -> Option<FilterParts> {
    match pat.kind {
        NodeKind::If(cond, then, None) => if cond.kind is Let || !(then.kind is Block) {
            None
        } else {
            Some(FilterParts { cond: cond.span, then: inner_span_of(*then), local_defs })
        },
        _ => None,
    }
}

/// The parts of a closure's body that is, after local definitions, a single
/// `if` in the shape of a filter.
pub open spec fn simple_filter(body: Node) -> Option<FilterParts> {
    match pat_expr_and_spans(body) {
        Some((Some(pat), local_defs, None)) => filter_of(pat, local_defs),
        _ => None,
    }
}

/// Finds the parts of a closure's body that is, after local definitions, a
/// single `if` in the shape of a filter.
pub fn find_simple_filter(body: &Node) -> (parts: Option<FilterParts>)
    ensures
        parts == simple_filter(*body),
{
    match get_pat_expr_and_spans(body) {
        Some((Some(pat), local_defs, None)) => match &pat.kind {
            NodeKind::If(cond, then, None) => {
                let is_let = match &cond.kind {
                    NodeKind::Let => true,
                    _ => false,
                };
                let is_block = match &then.kind {
                    NodeKind::Block(_) => true,
                    _ => false,
                };
                if is_let || !is_block {
                    None
                } else {
                    Some(FilterParts { cond: cond.span, then: inner_span(then), local_defs })
                }
            },
            _ => None,
        },
        _ => None,
    }
}

/// The block starts with a `return` that ends in a semicolon.
pub open spec fn leaves_first(block: Node) -> bool {
    match block.kind {
        NodeKind::Block(b) => b.stmts@.len() > 0 && match b.stmts@[0].kind {
            StmtKind::Semi(e) => e.kind is Ret,
            _ => false,
        },
        _ => false,
    }
}

/// Whether the block starts with a `return` that ends in a semicolon.
pub fn is_leaving_first(block: &Node) -> (leaves: bool)
    ensures
        leaves == leaves_first(*block),
{
    match &block.kind {
        NodeKind::Block(b) => {
            if b.stmts.len() == 0 {
                return false;
            }
            match &b.stmts[0].kind {
                StmtKind::Semi(e) => match &e.kind {
                    NodeKind::Ret => true,
                    _ => false,
                },
                _ => false,
            }
        },
        _ => false,
    }
}

/// The `if` leaves the closure where its condition holds; what it runs else,
/// if anything, is a block.
pub open spec fn flipped_of(pat: Node, local_defs: Option<Span>, body: Option<Span>) -> Option<
    FlippedParts,
> {
    match pat.kind {
        NodeKind::If(cond, fail, otherwise) => if !leaves_first(*fail) {
            None
        } else {
            match otherwise {
                Some(then) => if then.kind is Block {
                    Some(
                        FlippedParts { cond: cond.span, then: inner_span_of(*then), body, local_defs },
                    )
                } else {
                    None
                },
                None => Some(FlippedParts { cond: cond.span, then: None, body, local_defs }),
            }
        },
        _ => None,
    }
}

/// The parts of a closure's body that, after local definitions, starts with
/// an `if` that leaves the closure.
pub open spec fn flipped_filter(body: Node) -> Option<FlippedParts> {
    match pat_expr_and_spans(body) {
        Some((Some(pat), local_defs, rest)) => flipped_of(pat, local_defs, rest),
        _ => None,
    }
}

/// Finds the parts of a closure's body that, after local definitions, starts
/// with an `if` that leaves the closure.
pub fn find_flipped_filter(body: &Node) -> (parts: Option<FlippedParts>)
    ensures
        parts == flipped_filter(*body),
{
    match get_pat_expr_and_spans(body) {
        Some((Some(pat), local_defs, rest)) => match &pat.kind {
            NodeKind::If(cond, fail, otherwise) => {
                if !is_leaving_first(fail) {
                    return None;
                }
                match otherwise {
                    Some(then) => {
                        let is_block = match &then.kind {
                            NodeKind::Block(_) => true,
                            _ => false,
                        };
                        if is_block {
                            Some(
                                FlippedParts {
                                    cond: cond.span,
                                    then: inner_span(then),
                                    body: rest,
                                    local_defs,
                                },
                            )
                        } else {
                            None
                        }
                    },
                    None => Some(
                        FlippedParts { cond: cond.span, then: None, body: rest, local_defs },
                    ),
                }
            },
            _ => None,
        },
        _ => None,
    }
}

/// The calls that take the place of a `for_each` whose closure filters: a
/// `filter` by the condition, and a `for_each` that runs what the `if` ran.
pub open spec fn filter_text(
    pat: Seq<char>,
    local_defs: Seq<char>,
    cond: Seq<char>,
    then: Seq<char>,
) -> Seq<char> {
    joined(
        seq![
            "filter(|"@,
            pat,
            "| { "@,
            local_defs,
            " "@,
            cond,
            " }).for_each(|"@,
            pat,
            "| { "@,
            local_defs,
            " "@,
            then,
            " })"@,
        ],
    )
}

/// Writes the calls that take the place of a `for_each` whose closure
/// filters.
pub fn filter_suggestion(pat: &str, local_defs: &str, cond: &str, then: &str) -> (text: String)
    ensures
        text@ == filter_text(pat@, local_defs@, cond@, then@),
{
    let parts = vec![
        "filter(|",
        pat,
        "| { ",
        local_defs,
        " ",
        cond,
        " }).for_each(|",
        pat,
        "| { ",
        local_defs,
        " ",
        then,
        " })",
    ];
    assert(texts(parts@) =~= seq![
        "filter(|"@,
        pat@,
        "| { "@,
        local_defs@,
        " "@,
        cond@,
        " }).for_each(|"@,
        pat@,
        "| { "@,
        local_defs@,
        " "@,
        then@,
        " })"@,
    ]);
    join(&parts)
}

/// The calls that take the place of a `for_each` whose closure leaves early:
/// a `filter` by the negated condition, and a `for_each` that runs the rest.
pub open spec fn flipped_text(
    pat: Seq<char>,
    local_defs: Seq<char>,
    cond: Seq<char>,
    then: Seq<char>,
    body: Seq<char>,
) -> Seq<char> {
    joined(
        seq![
            "filter(|"@,
            pat,
            "| { "@,
            local_defs,
            " !("@,
            cond,
            ") }).for_each(|"@,
            pat,
            "| { "@,
            local_defs,
            " "@,
            then,
            " "@,
            body,
            " })"@,
        ],
    )
}

/// Writes the calls that take the place of a `for_each` whose closure leaves
/// early.
pub fn flipped_suggestion(pat: &str, local_defs: &str, cond: &str, then: &str, body: &str) -> (text:
    String)
    ensures
        text@ == flipped_text(pat@, local_defs@, cond@, then@, body@),
{
    let parts = vec![
        "filter(|",
        pat,
        "| { ",
        local_defs,
        " !(",
        cond,
        ") }).for_each(|",
        pat,
        "| { ",
        local_defs,
        " ",
        then,
        " ",
        body,
        " })",
    ];
    assert(texts(parts@) =~= seq![
        "filter(|"@,
        pat@,
        "| { "@,
        local_defs@,
        " !("@,
        cond@,
        ") }).for_each(|"@,
        pat@,
        "| { "@,
        local_defs@,
        " "@,
        then@,
        " "@,
        body@,
        " })"@,
    ]);
    join(&parts)
}

} // verus!
