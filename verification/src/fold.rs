use crate::adapters::same_name;
use crate::chain::Span;
use crate::text::join;
use crate::text::joined;
use crate::text::texts;
use crate::utils::Node;
use crate::utils::NodeKind;
use crate::utils::get_pat_expr_and_spans;
use crate::utils::pat_expr_and_spans;
use vstd::prelude::*;

verus! {

/// The operator of a compound assignment.
#[derive(Clone, Copy, Debug, PartialEq, Eq, Structural)]
pub enum BinOpKind {
    Add,
    Sub,
    Mul,
    Div,
    Rem,
    BitXor,
    BitAnd,
    BitOr,
    Shl,
    Shr,
}

/// The kind of monoid that an accumulation runs in, which decides its
/// identity.
#[derive(Clone, Copy, Debug, PartialEq, Eq, Structural)]
pub enum MonoidType {
    Mul,
    Add,
}

/// The type of the accumulator.
#[derive(Clone, Copy, Debug, PartialEq, Eq, Structural)]
pub enum AccumulatorType {
    Integral,
    Bool,
    Other,
}

/// The monoid of an operator: sums, differences and the bit operations that
/// start from zero are additive, products and the bitwise and are
/// multiplicative, and no other operator accumulates.
pub open spec fn monoid_of(op: BinOpKind) -> Option<MonoidType> {
    match op {
        BinOpKind::Add | BinOpKind::Sub | BinOpKind::BitXor | BinOpKind::BitOr => Some(
            MonoidType::Add,
        ),
        BinOpKind::Mul | BinOpKind::BitAnd => Some(MonoidType::Mul),
        _ => None,
    }
}

/// The source text of the identity of a monoid at a type.
pub open spec fn identity_text(monoid: MonoidType, ty: AccumulatorType) -> Option<Seq<char>> {
    match ty {
        AccumulatorType::Integral => Some(
            match monoid {
                MonoidType::Add => "0"@,
                MonoidType::Mul => "1"@,
            },
        ),
        AccumulatorType::Bool => Some(
            match monoid {
                MonoidType::Add => "false"@,
                MonoidType::Mul => "true"@,
            },
        ),
        AccumulatorType::Other => None,
    }
}

/// The value that a fold with this operator starts from at this type.
pub open spec fn fold_identity(op: BinOpKind, ty: AccumulatorType) -> Option<Seq<char>> {
    match monoid_of(op) {
        Some(monoid) => identity_text(monoid, ty),
        None => None,
    }
}

/// The monoid of an operator, if it accumulates.
pub fn monoid(op: BinOpKind) -> (found: Option<MonoidType>)
    ensures
        found == monoid_of(op),
{
    match op {
        BinOpKind::Add | BinOpKind::Sub | BinOpKind::BitXor | BinOpKind::BitOr => Some(
            MonoidType::Add,
        ),
        BinOpKind::Mul | BinOpKind::BitAnd => Some(MonoidType::Mul),
        _ => None,
    }
}

/// The source text of the value that a fold with this operator starts from at
/// this type: none where the operator does not accumulate or the type has no
/// known identity.
pub fn identity(op: BinOpKind, ty: AccumulatorType) -> (text: Option<&'static str>)
    ensures
        match text {
            Some(t) => fold_identity(op, ty) == Some(t@),
            None => fold_identity(op, ty).is_none(),
        },
{
    let mon_ty = match monoid(op) {
        Some(mon_ty) => mon_ty,
        None => {
            return None;
        },
    };
    match ty {
        AccumulatorType::Integral => match mon_ty {
            MonoidType::Add => Some("0"),
            MonoidType::Mul => Some("1"),
        },
        AccumulatorType::Bool => match mon_ty {
            MonoidType::Add => Some("false"),
            MonoidType::Mul => Some("true"),
        },
        AccumulatorType::Other => None,
    }
}

/// The parts of a closure that accumulates by a compound assignment.
#[derive(Clone, Copy, Debug, PartialEq, Eq, Structural)]
pub struct SimpleFold {
    /// The accumulator.
    pub lhs: Span,
    /// What is accumulated.
    pub rhs: Span,
    /// The operator.
    pub op: BinOpKind,
    /// The local definitions before the assignment, if there are any.
    pub local_defs: Option<Span>,
}

/// The parts of a closure that accumulates by pushing to a vector.
#[derive(Clone, Copy, Debug, PartialEq, Eq, Structural)]
pub struct VecFold {
    /// The vector.
    pub receiver: Span,
    /// The call that pushes.
    pub push: Span,
    /// The local definitions before the call, if there are any.
    pub local_defs: Option<Span>,
}

/// The parts of a closure's body that is, after local definitions, a single
/// compound assignment with an operator that accumulates, to an accumulator
/// whose type has an identity.
pub open spec fn simple_fold(body: Node, ty: AccumulatorType) -> Option<SimpleFold> {
    match pat_expr_and_spans(body) {
        Some((Some(pat), local_defs, None)) => match pat.kind {
            NodeKind::AssignOp(op, lhs, rhs) => if fold_identity(op, ty).is_some() {
                Some(SimpleFold { lhs: lhs.span, rhs: rhs.span, op, local_defs })
            } else {
                None
            },
            _ => None,
        },
        _ => None,
    }
}

/// Finds the parts of a closure's body that accumulates by a compound
/// assignment; `ty` is the type of the accumulator.
pub fn find_simple_fold(body: &Node, ty: AccumulatorType) -> (parts: Option<SimpleFold>)
    ensures
        parts == simple_fold(*body, ty),
{
    match get_pat_expr_and_spans(body) {
        Some((Some(pat), local_defs, None)) => match &pat.kind {
            NodeKind::AssignOp(op, lhs, rhs) => {
                if identity(*op, ty).is_some() {
                    Some(SimpleFold { lhs: lhs.span, rhs: rhs.span, op: *op, local_defs })
                } else {
                    None
                }
            },
            _ => None,
        },
        _ => None,
    }
}

/// The parts of a closure's body that is, after local definitions, a single
/// `push` on a path; `is_vec` says that the path is a vector.
pub open spec fn vec_fold(body: Node, is_vec: bool) -> Option<VecFold> {
    match pat_expr_and_spans(body) {
        Some((Some(pat), local_defs, None)) => match pat.kind {
            NodeKind::MethodCall(name, _, receiver, _) => if name@ == "push"@
                && receiver.kind is Path && is_vec {
                Some(VecFold { receiver: receiver.span, push: pat.span, local_defs })
            } else {
                None
            },
            _ => None,
        },
        _ => None,
    }
}

/// Finds the parts of a closure's body that accumulates by pushing to a
/// vector; `is_vec` says that the receiver of the call is a vector.
pub fn find_vec_fold(body: &Node, is_vec: bool) -> (parts: Option<VecFold>)
    ensures
        parts == vec_fold(*body, is_vec),
{
    match get_pat_expr_and_spans(body) {
        Some((Some(pat), local_defs, None)) => match &pat.kind {
            NodeKind::MethodCall(name, _, receiver, _) => {
                let is_path = match &receiver.kind {
                    NodeKind::Path => true,
                    _ => false,
                };
                if same_name(name.as_str(), "push") && is_path && is_vec {
                    Some(VecFold { receiver: receiver.span, push: pat.span, local_defs })
                } else {
                    None
                }
            },
            _ => None,
        },
        _ => None,
    }
}

/// The `fold` that takes the place of a `for_each` whose closure accumulates
/// by a compound assignment.
pub open spec fn simple_fold_text(
    lhs: Seq<char>,
    op: Seq<char>,
    recv: Seq<char>,
    pat: Seq<char>,
    local_defs: Seq<char>,
    rhs: Seq<char>,
    id: Seq<char>,
) -> Seq<char> {
    joined(
        seq![
            lhs,
            " "@,
            op,
            " "@,
            recv,
            ".map(|"@,
            pat,
            "| "@,
            local_defs,
            " "@,
            rhs,
            ").fold("@,
            id,
            ", |mut "@,
            lhs,
            ", v| { "@,
            lhs,
            " "@,
            op,
            " v; "@,
            lhs,
            " })"@,
        ],
    )
}

/// Writes the `fold` that takes the place of a `for_each` whose closure
/// accumulates by a compound assignment.
pub fn simple_fold_suggestion(
    lhs: &str,
    op: &str,
    recv: &str,
    pat: &str,
    local_defs: &str,
    rhs: &str,
    id: &str,
) -> (text: String)
    ensures
        text@ == simple_fold_text(lhs@, op@, recv@, pat@, local_defs@, rhs@, id@),
{
    let parts = vec![
        lhs,
        " ",
        op,
        " ",
        recv,
        ".map(|",
        pat,
        "| ",
        local_defs,
        " ",
        rhs,
        ").fold(",
        id,
        ", |mut ",
        lhs,
        ", v| { ",
        lhs,
        " ",
        op,
        " v; ",
        lhs,
        " })",
    ];
    assert(texts(parts@) =~= seq![
        lhs@,
        " "@,
        op@,
        " "@,
        recv@,
        ".map(|"@,
        pat@,
        "| "@,
        local_defs@,
        " "@,
        rhs@,
        ").fold("@,
        id@,
        ", |mut "@,
        lhs@,
        ", v| { "@,
        lhs@,
        " "@,
        op@,
        " v; "@,
        lhs@,
        " })"@,
    ]);
    join(&parts)
}

/// The `fold` that takes the place of a `for_each` whose closure pushes to a
/// vector.
pub open spec fn vec_fold_text(
    receiver: Seq<char>,
    recv: Seq<char>,
    pat: Seq<char>,
    local_defs: Seq<char>,
    push: Seq<char>,
) -> Seq<char> {
    joined(
        seq![
            receiver,
            " = "@,
            recv,
            ".fold("@,
            receiver,
            ", |mut "@,
            receiver,
            ", "@,
            pat,
            "| { "@,
            local_defs,
            " "@,
            push,
            "; "@,
            receiver,
            " })"@,
        ],
    )
}

/// Writes the `fold` that takes the place of a `for_each` whose closure
/// pushes to a vector.
pub fn vec_fold_suggestion(receiver: &str, recv: &str, pat: &str, local_defs: &str, push: &str) -> (text:
    String)
    ensures
        text@ == vec_fold_text(receiver@, recv@, pat@, local_defs@, push@),
{
    let parts = vec![
        receiver,
        " = ",
        recv,
        ".fold(",
        receiver,
        ", |mut ",
        receiver,
        ", ",
        pat,
        "| { ",
        local_defs,
        " ",
        push,
        "; ",
        receiver,
        " })",
    ];
    assert(texts(parts@) =~= seq![
        receiver@,
        " = "@,
        recv@,
        ".fold("@,
        receiver@,
        ", |mut "@,
        receiver@,
        ", "@,
        pat@,
        "| { "@,
        local_defs@,
        " "@,
        push@,
        "; "@,
        receiver@,
        " })"@,
    ]);
    join(&parts)
}

} // verus!
