use vstd::prelude::*;

verus! {

/// Where a place expression is rooted.
#[derive(Clone, Copy, Debug, PartialEq, Eq, Structural)]
pub enum PlaceBase {
    /// A variable of the body that is being walked, named by its binding id.
    Local(u64),
    /// A variable captured from an enclosing body, named by its binding id.
    Upvar(u64),
    /// A temporary, a static or anything else that is no variable.
    Other,
}

impl PlaceBase {
    /// The binding a place is rooted in, if it is rooted in one.
    pub open spec fn binding(self) -> Option<u64> {
        match self {
            PlaceBase::Local(id) => Some(id),
            PlaceBase::Upvar(id) => Some(id),
            PlaceBase::Other => None,
        }
    }

    /// The binding a place is rooted in, if it is rooted in one.
    pub fn variable(&self) -> (id: Option<u64>)
        ensures
            id == self.binding(),
    {
        match self {
            PlaceBase::Local(id) => Some(*id),
            PlaceBase::Upvar(id) => Some(*id),
            PlaceBase::Other => None,
        }
    }
}

/// A place that an expression touches: a variable, possibly followed by field
/// and index projections.
#[derive(Clone, Copy, Debug, PartialEq, Eq, Structural)]
pub struct Place {
    /// The root of the place.
    pub base: PlaceBase,
    /// The type of the root, as the type oracle names it.
    pub base_ty: u64,
    /// Whether the root's type is an exclusive reference.
    pub base_is_mut_ref: bool,
    /// The node of the expression that denotes the place.
    pub node: u64,
}

/// The kind of reference that a borrow forms.
#[derive(Clone, Copy, Debug, PartialEq, Eq, Structural)]
pub enum BorrowKind {
    /// `&place`.
    Shared,
    /// A shared borrow that must be unique, as a closure takes when it assigns
    /// through a captured reference.
    UniqueShared,
    /// `&mut place`.
    Exclusive,
}

/// One touch of a place, as the walk over a body meets it.
#[derive(Clone, Copy, Debug, PartialEq, Eq, Structural)]
pub enum Effect {
    /// The value is read and released: moved out of the place.
    Consume(Place),
    /// A reference to the place is formed.
    Borrow(Place, BorrowKind),
    /// The place is assigned to, directly or through projections.
    Mutate(Place),
    /// The value is duplicated out of the place.
    Copy(Place),
    /// The place is inspected without being used; the flag says that the read
    /// moves the variable into a closure that a `let` introduces.
    FakeRead(Place, bool),
    /// A pattern introduces the binding with the given id at the place.
    Bind(Place, u64),
}

/// The syntactic shape of the value that a `return` hands back.
#[derive(Clone, Copy, Debug, PartialEq, Eq, Structural)]
pub enum ReturnShape {
    /// A bare path, such as `None`.
    Path,
    /// A call whose callee is a path, such as `Err(e)`.
    PathCall,
    /// Any other expression.
    Other,
}

/// The oracle's answers about a returned value and its type.
#[derive(Clone, Copy, Debug, PartialEq, Eq, Structural)]
pub struct ReturnFacts {
    /// The value's type is a short-circuiting result type.
    pub short_circuits: bool,
    /// The syntactic shape of the value.
    pub shape: ReturnShape,
    /// The value's type is the optional type.
    pub is_option: bool,
    /// The path resolves to the empty constructor of the optional type.
    pub is_none: bool,
    /// The value's type is the fallible type.
    pub is_result: bool,
    /// The callee resolves to the failure constructor of the fallible type.
    pub is_err: bool,
    /// The callee resolves to the function that passes a failure through.
    pub is_from_residual: bool,
}

/// The kind of a node of the expression tree, reduced to what the analyses
/// read.
pub enum ExprKind {
    /// A touch of a place.
    Touch(Effect),
    /// A block; the flag marks an explicit unsafe region.
    Block(bool),
    /// A closure, with the bindings of its parameters; its body is its only
    /// child.
    Closure(Vec<u64>),
    /// A method call, with the method's name; the receiver is the first child,
    /// the arguments follow.
    MethodCall(String),
    /// A loop of any form.
    Loop,
    /// `break`; the flag says whether it names a label.
    Break(bool),
    /// `continue`; the flag says whether it names a label.
    Continue(bool),
    /// `return`: without a value, or with the oracle's answers about the value,
    /// which is the only child.
    Return(Option<ReturnFacts>),
    /// A suspension point; the awaited expression is the only child.
    Await,
    /// Any other expression.
    Other,
}

/// A node of the expression tree: its kind, and its operands in the order in
/// which they are evaluated.
pub struct Expr {
    pub kind: ExprKind,
    pub children: Vec<Expr>,
}

/// A closure of a body, by the id of its definition; `node` is the closure
/// expression itself.
pub struct ClosureBody {
    pub id: u64,
    pub node: Expr,
}

/// `part` is `whole` or lies somewhere below it.
pub open spec fn occurs_in(part: Expr, whole: Expr) -> bool
    decreases whole,
{
    part == whole || exists|i: int|
        0 <= i < whole.children@.len() && occurs_in(part, #[trigger] whole.children@[i])
}

impl Expr {
    /// A node without operands.
    pub fn leaf(kind: ExprKind) -> (e: Expr)
        ensures
            e.kind == kind,
            e.children@ == Seq::<Expr>::empty(),
    {
        Expr { kind, children: Vec::new() }
    }

    /// A node with the given operands.
    pub fn node(kind: ExprKind, children: Vec<Expr>) -> (e: Expr)
        ensures
            e.kind == kind,
            e.children == children,
    {
        Expr { kind, children }
    }
}

} // verus!
