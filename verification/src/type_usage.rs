use crate::idset::IdSet;
use crate::idset::set_clear;
use crate::idset::set_insert;
use crate::idset::set_items;
use crate::idset::set_contains;
use crate::idset::set_new;
use crate::syntax::ClosureBody;
use crate::syntax::Effect;
use crate::syntax::Expr;
use crate::syntax::ExprKind;
use crate::syntax::Place;
use crate::usage::Step;
use crate::usage::ids_among;
use crate::usage::new_closure_steps;
use crate::usage::steps_among;
use crate::usage::steps_of;
use vstd::prelude::*;

verus! {

/// The types of the variables that a body touches, by the way it touches them.
pub struct TypeUsage {
    /// The types of the variables that were read and released.
    pub consumed: Set<u64>,
    /// The types of the variables that were read by duplication.
    pub copied: Set<u64>,
    /// The types of the variables that were assigned to.
    pub mutated: Set<u64>,
    /// The types of the variables that were borrowed.
    pub borrowed: Set<u64>,
    /// The binding that the step before introduced, if it introduced one.
    pub prev_bind: Option<u64>,
    /// The bindings noted as moved into a closure.
    pub moved: Set<u64>,
}

/// `types` with the type of the place's variable, if the place is rooted in
/// one.
pub open spec fn with_type_of(types: Set<u64>, place: Place) -> Set<u64> {
    if place.base.binding().is_some() {
        types.insert(place.base_ty)
    } else {
        types
    }
}

impl TypeUsage {
    /// What is known before the walk starts.
    pub open spec fn empty() -> TypeUsage {
        TypeUsage {
            consumed: Set::empty(),
            copied: Set::empty(),
            mutated: Set::empty(),
            borrowed: Set::empty(),
            prev_bind: None,
            moved: Set::empty(),
        }
    }

    /// What is known after one more touch.
    pub open spec fn touch(self, effect: Effect) -> TypeUsage {
        match effect {
            Effect::Consume(place) => TypeUsage {
                consumed: with_type_of(self.consumed, place),
                ..self
            },
            Effect::Borrow(place, _) => TypeUsage {
                borrowed: with_type_of(self.borrowed, place),
                ..self
            },
            Effect::Mutate(place) => TypeUsage {
                mutated: with_type_of(self.mutated, place),
                ..self
            },
            Effect::Copy(place) => TypeUsage { copied: with_type_of(self.copied, place), ..self },
            Effect::FakeRead(_, _) => self,
            Effect::Bind(_, id) => TypeUsage { prev_bind: Some(id), ..self },
        }
    }

    /// What is known after one more step.
    pub open spec fn step(self, step: Step) -> TypeUsage {
        match step {
            Step::Touch(effect, _) => self.touch(effect),
            Step::Declare(_) => self,
            Step::EnterClosure => TypeUsage { prev_bind: None, moved: Set::empty(), ..self },
        }
    }

    /// What is known after the steps, taken from front to back.
    pub open spec fn run(self, steps: Seq<Step>) -> TypeUsage
        decreases steps.len(),
    {
        if steps.len() == 0 {
            self
        } else {
            self.run(steps.drop_last()).step(steps.last())
        }
    }

    /// Every value that the body moves is of a type that it also duplicates.
    pub open spec fn moves_only_copies(self) -> bool {
        self.consumed.subset_of(self.copied)
    }
}

/// Running two runs of steps one after the other is running them joined.
pub proof fn lemma_types_concat(start: TypeUsage, first: Seq<Step>, second: Seq<Step>)
    ensures
        start.run(first + second) == start.run(first).run(second),
    decreases second.len(),
{
    if second.len() == 0 {
        assert(first + second =~= first);
    } else {
        assert((first + second).drop_last() =~= first + second.drop_last());
        assert((first + second).last() == second.last());
        lemma_types_concat(start, first, second.drop_last());
    }
}

/// The state of a walk that records the types of the variables a body
/// touches.
pub struct UsedVariablesCtxt {
    pub all_vars: IdSet,
    pub copy_vars: IdSet,
    mut_vars: IdSet,
    borrow_vars: IdSet,
    prev_bind: Option<u64>,
    prev_move_to_closure: IdSet,
}

impl View for UsedVariablesCtxt {
    type V = TypeUsage;

    closed spec fn view(&self) -> TypeUsage {
        TypeUsage {
            consumed: self.all_vars@,
            copied: self.copy_vars@,
            mutated: self.mut_vars@,
            borrowed: self.borrow_vars@,
            prev_bind: self.prev_bind,
            moved: self.prev_move_to_closure@,
        }
    }
}

impl UsedVariablesCtxt {
    /// The state before the walk.
    pub fn new() -> (ctx: UsedVariablesCtxt)
        ensures
            ctx@ == TypeUsage::empty(),
    {
        UsedVariablesCtxt {
            all_vars: set_new(),
            copy_vars: set_new(),
            mut_vars: set_new(),
            borrow_vars: set_new(),
            prev_bind: None,
            prev_move_to_closure: set_new(),
        }
    }

    /// The value of a place is read and released.
    pub fn consume(&mut self, place: &Place)
        ensures
            final(self)@ == old(self)@.touch(Effect::Consume(*place)),
    {
        if place.base.variable().is_some() {
            set_insert(&mut self.all_vars, place.base_ty);
        }
    }

    /// A reference to a place is formed.
    pub fn borrow(&mut self, place: &Place)
        ensures
            final(self)@ == (TypeUsage {
                borrowed: with_type_of(old(self)@.borrowed, *place),
                ..old(self)@
            }),
    {
        if place.base.variable().is_some() {
            set_insert(&mut self.borrow_vars, place.base_ty);
        }
    }

    /// A place is assigned to.
    pub fn mutate(&mut self, place: &Place)
        ensures
            final(self)@ == old(self)@.touch(Effect::Mutate(*place)),
    {
        if place.base.variable().is_some() {
            set_insert(&mut self.mut_vars, place.base_ty);
        }
    }

    /// The value of a place is duplicated.
    pub fn copy(&mut self, place: &Place)
        ensures
            final(self)@ == old(self)@.touch(Effect::Copy(*place)),
    {
        if place.base.variable().is_some() {
            set_insert(&mut self.copy_vars, place.base_ty);
        }
    }

    /// A pattern introduces the binding `id`.
    pub fn bind(&mut self, id: u64)
        ensures
            final(self)@ == (TypeUsage { prev_bind: Some(id), ..old(self)@ }),
    {
        self.prev_bind = Some(id);
    }

    /// Takes one touch into account.
    pub fn touch(&mut self, effect: &Effect)
        ensures
            final(self)@ == old(self)@.touch(*effect),
    {
        match effect {
            Effect::Consume(place) => self.consume(place),
            Effect::Borrow(place, _) => self.borrow(place),
            Effect::Mutate(place) => self.mutate(place),
            Effect::Copy(place) => self.copy(place),
            Effect::FakeRead(_, _) => {},
            Effect::Bind(_, id) => self.bind(*id),
        }
    }

    /// Walks an expression from front to back, nested closures included.
    pub fn walk(&mut self, e: &Expr)
        ensures
            final(self)@ == old(self)@.run(steps_of(*e, false)),
        decreases e,
    {
        self.walk_in(e, false);
    }

    /// Walks an expression that lies in an unsafe region or not; the types
    /// recorded are the same either way.
    fn walk_in(&mut self, e: &Expr, in_unsafe: bool)
        ensures
            final(self)@ == old(self)@.run(steps_of(*e, in_unsafe)),
            final(self)@ == old(self)@.run(steps_of(*e, false)),
        decreases e,
    {
        proof {
            lemma_region_is_ignored(old(self)@, *e, in_unsafe);
        }
        let mut inner_unsafe = in_unsafe;
        let ghost mut head: Seq<Step> = Seq::empty();
        match &e.kind {
            ExprKind::Touch(effect) => {
                self.touch(effect);
                proof {
                    head = seq![Step::Touch(*effect, in_unsafe)];
                    assert(head.drop_last() =~= Seq::<Step>::empty());
                    assert(old(self)@.run(head.drop_last()) == old(self)@);
                }
            },
            ExprKind::Block(is_unsafe) => {
                inner_unsafe = in_unsafe || *is_unsafe;
            },
            ExprKind::Closure(params) => {
                self.prev_bind = None;
                set_clear(&mut self.prev_move_to_closure);
                proof {
                    head = seq![Step::EnterClosure] + crate::usage::declarations(params@);
                    lemma_declarations_keep(old(self)@.step(Step::EnterClosure), params@);
                    assert(seq![Step::EnterClosure].drop_last() =~= Seq::<Step>::empty());
                    assert(old(self)@.run(seq![Step::EnterClosure].drop_last()) == old(self)@);
                    lemma_types_concat(
                        old(self)@,
                        seq![Step::EnterClosure],
                        crate::usage::declarations(params@),
                    );
                }
            },
            _ => {},
        }
        let ghost mid = self@;
        assert(mid == old(self)@.run(head));
        let mut i: usize = 0;
        while i < e.children.len()
            invariant
                i <= e.children@.len(),
                self@ == mid.run(steps_among(e.children@, i as nat, inner_unsafe)),
            decreases e.children@.len() - i,
        {
            let ghost done = steps_among(e.children@, i as nat, inner_unsafe);
            self.walk_in(&e.children[i], inner_unsafe);
            proof {
                lemma_types_concat(mid, done, steps_of(e.children@[i as int], inner_unsafe));
            }
            i = i + 1;
        }
        proof {
            let tail = steps_among(e.children@, e.children@.len(), inner_unsafe);
            lemma_types_concat(old(self)@, head, tail);
            assert(steps_of(*e, in_unsafe) =~= head + tail);
        }
    }

    /// Whether every value that the body moves is of a type that it also
    /// duplicates.
    pub fn only_copies_moved(&self) -> (ok: bool)
        ensures
            ok == self@.moves_only_copies(),
    {
        let moved = set_items(&self.all_vars);
        let mut i: usize = 0;
        while i < moved.len()
            invariant
                i <= moved@.len(),
                moved@.to_set() == self@.consumed,
                forall|j: int| 0 <= j < i ==> self@.copied.contains(#[trigger] moved@[j]),
            decreases moved@.len() - i,
        {
            if !set_contains(&self.copy_vars, moved[i]) {
                assert(moved@.to_set().contains(moved@[i as int]));
                return false;
            }
            i = i + 1;
        }
        proof {
            assert forall|ty: u64| self@.consumed.contains(ty) implies self@.copied.contains(ty) by {
                assert(moved@.to_set().contains(ty));
                let j = choose|j: int| 0 <= j < moved@.len() && moved@[j] == ty;
            }
        }
        true
    }
}

/// Declaring parameters records no type.
pub proof fn lemma_declarations_keep(start: TypeUsage, params: Seq<u64>)
    ensures
        start.run(crate::usage::declarations(params)) == start,
    decreases params.len(),
{
    let steps = crate::usage::declarations(params);
    if params.len() > 0 {
        assert(steps.drop_last() =~= crate::usage::declarations(params.drop_last()));
        lemma_declarations_keep(start, params.drop_last());
    }
}

/// The types that a walk records do not depend on the region that the
/// expression lies in.
pub proof fn lemma_region_is_ignored(start: TypeUsage, e: Expr, in_unsafe: bool)
    ensures
        start.run(steps_of(e, in_unsafe)) == start.run(steps_of(e, false)),
    decreases e, 0nat,
{
    let n = e.children@.len();
    match e.kind {
        ExprKind::Touch(effect) => {
            let a = seq![Step::Touch(effect, in_unsafe)];
            let b = seq![Step::Touch(effect, false)];
            assert(a.drop_last() =~= Seq::<Step>::empty());
            assert(b.drop_last() =~= Seq::<Step>::empty());
            assert(start.run(a.drop_last()) == start);
            assert(start.run(b.drop_last()) == start);
            assert(start.run(a) == start.run(b));
            lemma_types_concat(start, a, steps_among(e.children@, n, in_unsafe));
            lemma_types_concat(start, b, steps_among(e.children@, n, false));
            lemma_region_is_ignored_among(start.run(a), e.children@, n, in_unsafe);
        },
        ExprKind::Block(is_unsafe) => {
            lemma_region_is_ignored_among(start, e.children@, n, in_unsafe || is_unsafe);
            lemma_region_is_ignored_among(start, e.children@, n, is_unsafe);
        },
        ExprKind::Closure(params) => {
            let head = seq![Step::EnterClosure] + crate::usage::declarations(params@);
            lemma_types_concat(start, head, steps_among(e.children@, n, in_unsafe));
            lemma_types_concat(start, head, steps_among(e.children@, n, false));
            lemma_region_is_ignored_among(start.run(head), e.children@, n, in_unsafe);
        },
        _ => {
            lemma_region_is_ignored_among(start, e.children@, n, in_unsafe);
        },
    }
}

/// The types that a walk over the first `n` expressions records do not depend
/// on the region that they lie in.
pub proof fn lemma_region_is_ignored_among(start: TypeUsage, es: Seq<Expr>, n: nat, in_unsafe: bool)
    requires
        n <= es.len(),
    ensures
        start.run(steps_among(es, n, in_unsafe)) == start.run(steps_among(es, n, false)),
    decreases es, n,
{
    if n > 0 {
        let m = (n - 1) as nat;
        lemma_region_is_ignored_among(start, es, m, in_unsafe);
        lemma_types_concat(start, steps_among(es, m, in_unsafe), steps_of(es[n - 1], in_unsafe));
        lemma_types_concat(start, steps_among(es, m, false), steps_of(es[n - 1], false));
        lemma_region_is_ignored(start.run(steps_among(es, m, false)), es[n - 1], in_unsafe);
    }
}

/// Walks `body` and returns the types of the variables that it touches.
pub fn check_variables(body: &Expr) -> (ctx: UsedVariablesCtxt)
    ensures
        ctx@ == TypeUsage::empty().run(steps_of(*body, false)),
{
    let mut ctx = UsedVariablesCtxt::new();
    ctx.walk(body);
    ctx
}

/// Walks, with the state `ctx`, each of the closures that was not walked
/// before, and notes it in `checked_closures`: a closure whose id is noted
/// there, or stands earlier in the list, is passed over. `walk` enters by itself
/// the closures that a body holds; this is for closures that are given apart
/// from a body.
pub fn check_closures(
    ctx: &mut UsedVariablesCtxt,
    checked_closures: &mut IdSet,
    closures: &Vec<ClosureBody>,
)
    ensures
        final(checked_closures)@ == old(checked_closures)@.union(
            ids_among(closures@, closures@.len()),
        ),
        final(ctx)@ == old(ctx)@.run(
            new_closure_steps(closures@, closures@.len(), old(checked_closures)@, false),
        ),
{
    let mut i: usize = 0;
    assert(checked_closures@ =~= old(checked_closures)@.union(ids_among(closures@, 0)));
    while i < closures.len()
        invariant
            i <= closures@.len(),
            checked_closures@ == old(checked_closures)@.union(ids_among(closures@, i as nat)),
            ctx@ == old(ctx)@.run(
                new_closure_steps(closures@, i as nat, old(checked_closures)@, false),
            ),
        decreases closures@.len() - i,
    {
        let ghost done = new_closure_steps(closures@, i as nat, old(checked_closures)@, false);
        let fresh = set_insert(checked_closures, closures[i].id);
        if fresh {
            ctx.walk(&closures[i].node);
            proof {
                lemma_types_concat(old(ctx)@, done, steps_of(closures@[i as int].node, false));
            }
        }
        assert(checked_closures@ =~= old(checked_closures)@.union(
            ids_among(closures@, (i + 1) as nat),
        ));
        i = i + 1;
    }
}

} // verus!
