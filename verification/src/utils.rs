use crate::chain::Span;
use crate::fold::BinOpKind;
use vstd::prelude::*;

verus! {

/// A statement of a block.
pub struct Stmt {
    pub kind: StmtKind,
    pub span: Span,
}

/// The kind of a statement.
pub enum StmtKind {
    /// A `let`.
    Let,
    /// An expression without a semicolon.
    Expr(Node),
    /// An expression with a semicolon.
    Semi(Node),
    /// An item declared in the block.
    Item,
}

/// An expression, as far as its shape as a block goes.
pub struct Node {
    pub kind: NodeKind,
    pub span: Span,
}

/// The kind of an expression.
pub enum NodeKind {
    /// A block.
    Block(Block),
    /// An `if`: its condition, the block it runs and what it runs else.
    If(Box<Node>, Box<Node>, Option<Box<Node>>),
    /// A `let` that stands as a condition.
    Let,
    /// A compound assignment: its operator, its target and its operand.
    AssignOp(BinOpKind, Box<Node>, Box<Node>),
    /// A method call: the method's name, where the name stands, the receiver
    /// and the arguments.
    MethodCall(String, Span, Box<Node>, Vec<Node>),
    /// A closure: its body.
    Closure(Box<Node>),
    /// A path.
    Path,
    /// A `return`.
    Ret,
    /// Any other expression.
    Other,
}

/// A block: its statements, and the expression that it ends in, if it ends in
/// one.
pub struct Block {
    pub stmts: Vec<Stmt>,
    pub expr: Option<Box<Node>>,
}

/// The statement only declares local variables: it is a `let`, or a block of
/// such statements that ends in no expression.
pub open spec fn local_def(stmt: Stmt) -> bool
    decreases stmt,
{
    match stmt.kind {
        StmtKind::Let => true,
        StmtKind::Expr(e) => match e.kind {
            NodeKind::Block(b) => b.expr.is_none() && forall|i: int|
                0 <= i < b.stmts@.len() ==> local_def(#[trigger] b.stmts@[i]),
            _ => false,
        },
        StmtKind::Semi(e) => match e.kind {
            NodeKind::Block(b) => b.expr.is_none() && forall|i: int|
                0 <= i < b.stmts@.len() ==> local_def(#[trigger] b.stmts@[i]),
            _ => false,
        },
        StmtKind::Item => false,
    }
}

/// Whether the statement only declares local variables.
pub fn is_local_def(stmt: &Stmt) -> (local: bool)
    ensures
        local == local_def(*stmt),
    decreases stmt,
{
    match &stmt.kind {
        StmtKind::Let => true,
        StmtKind::Expr(e) => is_local_block(e),
        StmtKind::Semi(e) => is_local_block(e),
        StmtKind::Item => false,
    }
}

/// The expression is a block of statements that only declare local variables,
/// and ends in no expression.
pub open spec fn local_block(e: Node) -> bool
    decreases e,
{
    match e.kind {
        NodeKind::Block(b) => b.expr.is_none() && forall|i: int|
            0 <= i < b.stmts@.len() ==> local_def(#[trigger] b.stmts@[i]),
        _ => false,
    }
}

/// Whether the expression is a block of statements that only declare local
/// variables, and ends in no expression.
pub fn is_local_block(e: &Node) -> (local: bool)
    ensures
        local == local_block(*e),
    decreases e,
{
    match &e.kind {
        NodeKind::Block(b) => b.expr.is_none() && all_local(&b.stmts),
        _ => false,
    }
}

/// Whether each of the statements only declares local variables.
pub fn all_local(stmts: &Vec<Stmt>) -> (local: bool)
    ensures
        local == forall|i: int| 0 <= i < stmts@.len() ==> local_def(#[trigger] stmts@[i]),
    decreases stmts,
{
    let mut i: usize = 0;
    while i < stmts.len()
        invariant
            i <= stmts@.len(),
            forall|j: int| 0 <= j < i ==> local_def(#[trigger] stmts@[j]),
        decreases stmts@.len() - i,
    {
        if !is_local_def(&stmts[i]) {
            return false;
        }
        i = i + 1;
    }
    true
}

/// Where the local definitions at the head of a block end: the index of the
/// first statement from `from` on that is none, or the number of statements.
pub open spec fn locals_end(stmts: Seq<Stmt>, from: nat) -> nat
    decreases stmts.len() - from,
{
    if from >= stmts.len() || !local_def(stmts[from as int]) {
        from
    } else {
        locals_end(stmts, from + 1)
    }
}

/// The expression of a statement that is one.
pub open spec fn stmt_expr(stmt: Stmt) -> Option<Node> {
    match stmt.kind {
        StmtKind::Expr(e) => Some(e),
        StmtKind::Semi(e) => Some(e),
        _ => None,
    }
}

/// What follows the first statement after the local definitions: `rest` is the
/// index of the statement after it.
pub open spec fn body_span_of(block: Block, rest: int) -> Option<Span> {
    if rest >= block.stmts@.len() {
        match block.expr {
            Some(e) => Some(e.span),
            None => None,
        }
    } else {
        Some(
            block.stmts@[rest].span.joined(
                match block.expr {
                    Some(e) => e.span,
                    None => block.stmts@[block.stmts@.len() - 1].span,
                },
            ),
        )
    }
}

/// The parts of an expression: the expression to look at, the stretch of the
/// local definitions before it, and the stretch of what follows it. An
/// expression that is no block is looked at as it is. In a block, the
/// statements at its head that only declare locals are the definitions; the
/// statement after them holds the expression to look at, and where no statement
/// is left the expression that the block ends in is the one. There are no parts
/// where the statement after the definitions is an item.
pub open spec fn pat_expr_and_spans(expr: Node) -> Option<(Option<Node>, Option<Span>, Option<Span>)> {
    match expr.kind {
        NodeKind::Block(block) => {
            let stmts = block.stmts@;
            let k = locals_end(stmts, 0);
            let tail = match block.expr {
                Some(e) => Some(*e),
                None => None,
            };
            let defs = if k > 0 {
                Some(stmts[0].span.joined(stmts[k - 1].span))
            } else {
                None
            };
            if k >= stmts.len() {
                Some((tail, defs, None))
            } else {
                match stmt_expr(stmts[k as int]) {
                    Some(e) => Some((Some(e), defs, body_span_of(block, (k + 1) as int))),
                    None => None,
                }
            }
        },
        _ => Some((Some(expr), None, None)),
    }
}

/// The local definitions at the head of a block are an unbroken run: each of
/// them is one, and the statement after them is none.
pub proof fn lemma_locals_end(stmts: Seq<Stmt>, from: nat)
    requires
        from <= stmts.len(),
    ensures
        from <= locals_end(stmts, from) <= stmts.len(),
        forall|i: int| from <= i < locals_end(stmts, from) ==> local_def(#[trigger] stmts[i]),
        locals_end(stmts, from) < stmts.len() ==> !local_def(
            stmts[locals_end(stmts, from) as int],
        ),
    decreases stmts.len() - from,
{
    if from < stmts.len() && local_def(stmts[from as int]) {
        lemma_locals_end(stmts, from + 1);
    }
}

/// Splits an expression into the expression to look at, the stretch of the
/// local definitions before it and the stretch of what follows it.
pub fn get_pat_expr_and_spans<'a>(expr: &'a Node) -> (parts: Option<
    (Option<&'a Node>, Option<Span>, Option<Span>),
>)
    ensures
        parts == (match pat_expr_and_spans(*expr) {
            Some((pat, defs, body)) => Some(
                (
                    match pat {
                        Some(e) => Some(&e),
                        None => None,
                    },
                    defs,
                    body,
                ),
            ),
            None => None,
        }),
{
    match &expr.kind {
        NodeKind::Block(block) => {
            let n = block.stmts.len();
            let mut k: usize = 0;
            let mut open = true;
            while open && k < n
                invariant
                    n == block.stmts@.len(),
                    k <= n,
                    locals_end(block.stmts@, k as nat) == locals_end(block.stmts@, 0),
                    !open ==> k < n && !local_def(block.stmts@[k as int]),
                decreases (if open { 1int } else { 0int }) + n - k,
            {
                if is_local_def(&block.stmts[k]) {
                    k = k + 1;
                } else {
                    open = false;
                }
            }
            assert(k == locals_end(block.stmts@, 0));
            let defs = if k > 0 {
                Some(block.stmts[0].span.to(&block.stmts[k - 1].span))
            } else {
                None
            };
            if k >= n {
                let tail: Option<&'a Node> = match &block.expr {
                    Some(e) => Some(&**e),
                    None => None,
                };
                return Some((tail, defs, None));
            }
            let pat: &'a Node = match &block.stmts[k].kind {
                StmtKind::Expr(e) => e,
                StmtKind::Semi(e) => e,
                _ => {
                    return None;
                },
            };
            let body = if k + 1 >= n {
                match &block.expr {
                    Some(e) => Some(e.span),
                    None => None,
                }
            } else {
                let last = match &block.expr {
                    Some(e) => e.span,
                    None => block.stmts[n - 1].span,
                };
                Some(block.stmts[k + 1].span.to(&last))
            };
            Some((Some(pat), defs, body))
        },
        _ => Some((Some(expr), None, None)),
    }
}

/// The stretch of what a body holds: of the whole expression where it is no
/// block; in a block, from its first statement, or else its final expression,
/// to its final expression, or else its last statement; none for an empty block.
pub open spec fn inner_span_of(body: Node) -> Option<Span> {
    match body.kind {
        NodeKind::Block(block) => {
            let n = block.stmts@.len();
            match block.expr {
                Some(e) => Some(
                    if n == 0 {
                        e.span
                    } else {
                        block.stmts@[0].span.joined(e.span)
                    },
                ),
                None => if n == 0 {
                    None
                } else {
                    Some(block.stmts@[0].span.joined(block.stmts@[n - 1].span))
                },
            }
        },
        _ => Some(body.span),
    }
}

/// The stretch of what a body holds, without the braces of a block.
pub fn inner_span(body: &Node) -> (span: Option<Span>)
    ensures
        span == inner_span_of(*body),
{
    match &body.kind {
        NodeKind::Block(block) => {
            let n = block.stmts.len();
            let first = if n == 0 {
                match &block.expr {
                    Some(e) => e.span,
                    None => {
                        return None;
                    },
                }
            } else {
                block.stmts[0].span
            };
            let last = match &block.expr {
                Some(e) => e.span,
                None => block.stmts[n - 1].span,
            };
            Some(first.to(&last))
        },
        _ => Some(body.span),
    }
}

} // verus!
