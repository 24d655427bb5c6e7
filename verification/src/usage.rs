use crate::alias::chain;
use crate::alias::lemma_linked_self;
use crate::alias::lemma_linked_step;
use crate::alias::linked;
use crate::alias::with_alias;
use crate::syntax::BorrowKind;
use crate::syntax::ClosureBody;
use crate::syntax::Effect;
use crate::syntax::Expr;
use crate::syntax::ExprKind;
use crate::syntax::Place;
use crate::syntax::PlaceBase;
use vstd::prelude::*;

verus! {

/// One step of the walk over a body.
#[derive(Clone, Copy, Debug, PartialEq, Eq, Structural)]
pub enum Step {
    /// A touch of a place; the flag says that it lies in an unsafe region.
    Touch(Effect, bool),
    /// A parameter of a closure comes into scope.
    Declare(u64),
    /// The walk enters the body of a closure.
    EnterClosure,
}

/// What a walk has learnt of the variables that a body touches.
pub struct Usage {
    /// The bindings that were read and released.
    pub consumed: Set<u64>,
    /// The bindings that a shared reference was formed to.
    pub shared: Set<u64>,
    /// The bindings that were mutated or borrowed exclusively, themselves or
    /// through a rebinding.
    pub exclusive: Set<u64>,
    /// The bindings that were read by duplication.
    pub duplicated: Set<u64>,
    /// The bindings that the body itself declares.
    pub local: Set<u64>,
    /// The type of each binding that was touched.
    pub types: Map<u64, u64>,
    /// The rebindings: an edge leads from a binding to the one it was
    /// initialised from.
    pub aliases: Map<u64, u64>,
    /// The binding that the step before introduced, if it introduced one.
    pub prev_bind: Option<u64>,
    /// The bindings that were moved into a closure and not consumed since.
    pub moved: Set<u64>,
}

impl Usage {
    /// What is known before the walk starts.
    pub open spec fn empty() -> Usage {
        Usage {
            consumed: Set::empty(),
            shared: Set::empty(),
            exclusive: Set::empty(),
            duplicated: Set::empty(),
            local: Set::empty(),
            types: Map::empty(),
            aliases: Map::empty(),
            prev_bind: None,
            moved: Set::empty(),
        }
    }

    /// `id` is used exclusively, and with it every binding that it stands for.
    pub open spec fn mark_exclusive(self, id: u64) -> Usage {
        Usage { exclusive: self.exclusive.union(chain(self.aliases, id)), ..self }
    }

    /// `id` is used exclusively if `marked` holds.
    pub open spec fn mark_exclusive_if(self, marked: bool, id: u64) -> Usage {
        if marked {
            self.mark_exclusive(id)
        } else {
            self
        }
    }

    /// `alias` stands for `target` from now on, unless that closes a cycle.
    pub open spec fn alias(self, alias: u64, target: u64) -> Usage {
        Usage { aliases: with_alias(self.aliases, alias, target), ..self }
    }

    /// The value of a place is read and released. If a pattern has just
    /// introduced another binding, that binding is a rebinding of the place's
    /// variable. Otherwise the variable counts as used exclusively where it is
    /// an exclusive reference that was not just moved into a closure, and
    /// anywhere in an unsafe region.
    pub open spec fn consume(self, place: Place, in_unsafe: bool) -> Usage {
        match place.base.binding() {
            None => self,
            Some(id) => {
                let seen = Usage {
                    consumed: self.consumed.insert(id),
                    types: self.types.insert(id, place.base_ty),
                    ..self
                };
                let used = match self.prev_bind {
                    Some(bound) => if bound != id {
                        seen.alias(bound, id)
                    } else {
                        seen
                    },
                    None => seen.mark_exclusive_if(
                        (!self.moved.contains(id) && place.base_is_mut_ref) || in_unsafe,
                        id,
                    ),
                };
                Usage { prev_bind: None, moved: used.moved.remove(id), ..used }
            },
        }
    }

    /// A reference to a place is formed. The variable counts as used
    /// exclusively under an exclusive borrow, under a unique borrow through an
    /// exclusive reference, and anywhere in an unsafe region.
    pub open spec fn borrow(self, place: Place, kind: BorrowKind, in_unsafe: bool) -> Usage {
        let cleared = Usage { prev_bind: None, ..self };
        match place.base.binding() {
            None => cleared,
            Some(id) => {
                let seen = Usage {
                    shared: if kind == BorrowKind::Exclusive {
                        cleared.shared
                    } else {
                        cleared.shared.insert(id)
                    },
                    types: cleared.types.insert(id, place.base_ty),
                    ..cleared
                };
                seen.mark_exclusive_if(
                    kind == BorrowKind::Exclusive || (kind == BorrowKind::UniqueShared
                        && place.base_is_mut_ref) || in_unsafe,
                    id,
                )
            },
        }
    }

    /// A place is assigned to: its variable is used exclusively.
    pub open spec fn mutate(self, place: Place) -> Usage {
        let cleared = Usage { prev_bind: None, ..self };
        match place.base.binding() {
            None => cleared,
            Some(id) => Usage {
                types: cleared.types.insert(id, place.base_ty),
                ..cleared
            }.mark_exclusive(id),
        }
    }

    /// The value of a place is duplicated. That is no mutation, except that in
    /// an unsafe region every touch counts as one.
    pub open spec fn copy(self, place: Place, in_unsafe: bool) -> Usage {
        let cleared = Usage { prev_bind: None, ..self };
        match place.base.binding() {
            None => cleared,
            Some(id) => Usage {
                duplicated: cleared.duplicated.insert(id),
                types: cleared.types.insert(id, place.base_ty),
                ..cleared
            }.mark_exclusive_if(in_unsafe, id),
        }
    }

    /// A captured variable is inspected. Where that moves it into a closure
    /// that a `let` introduces, the place's node becomes a rebinding of it.
    pub open spec fn fake_read(self, place: Place, into_closure: bool) -> Usage {
        match place.base {
            PlaceBase::Upvar(id) => {
                let seen = Usage { types: self.types.insert(id, place.base_ty), ..self };
                if into_closure {
                    let moved = seen.alias(place.node, id);
                    Usage { prev_bind: None, moved: moved.moved.insert(id), ..moved }
                } else {
                    seen
                }
            },
            _ => self,
        }
    }

    /// A pattern introduces binding `id` at a place: the place's variable is
    /// declared by the body.
    pub open spec fn bind(self, place: Place, id: u64, in_unsafe: bool) -> Usage {
        let bound = Usage { prev_bind: Some(id), ..self };
        match place.base.binding() {
            None => bound,
            Some(var) => Usage { local: bound.local.insert(var), ..bound }.mark_exclusive_if(
                in_unsafe,
                var,
            ),
        }
    }

    /// A parameter comes into scope: the body declares it.
    pub open spec fn declare(self, id: u64) -> Usage {
        Usage { local: self.local.insert(id), ..self }
    }

    /// The walk enters a closure: what the steps before left pending is
    /// dropped.
    pub open spec fn enter_closure(self) -> Usage {
        Usage { prev_bind: None, moved: Set::empty(), ..self }
    }

    /// What is known after one more touch.
    pub open spec fn touch(self, effect: Effect, in_unsafe: bool) -> Usage {
        match effect {
            Effect::Consume(place) => self.consume(place, in_unsafe),
            Effect::Borrow(place, kind) => self.borrow(place, kind, in_unsafe),
            Effect::Mutate(place) => self.mutate(place),
            Effect::Copy(place) => self.copy(place, in_unsafe),
            Effect::FakeRead(place, into_closure) => self.fake_read(place, into_closure),
            Effect::Bind(place, id) => self.bind(place, id, in_unsafe),
        }
    }

    /// What is known after one more step.
    pub open spec fn step(self, step: Step) -> Usage {
        match step {
            Step::Touch(effect, in_unsafe) => self.touch(effect, in_unsafe),
            Step::Declare(id) => self.declare(id),
            Step::EnterClosure => self.enter_closure(),
        }
    }

    /// What is known after the steps, taken from front to back.
    pub open spec fn run(self, steps: Seq<Step>) -> Usage
        decreases steps.len(),
    {
        if steps.len() == 0 {
            self
        } else {
            self.run(steps.drop_last()).step(steps.last())
        }
    }

    /// The variables from outside that the body may not share: those used
    /// exclusively, but for the ones that the body declares and the ones that
    /// it reads by duplication.
    pub open spec fn unsafe_set(self) -> Set<u64> {
        self.exclusive.difference(self.local).difference(self.duplicated)
    }
}

/// The steps that bring parameters into scope.
pub open spec fn declarations(params: Seq<u64>) -> Seq<Step> {
    Seq::new(params.len(), |i: int| Step::Declare(params[i]))
}

/// The steps of the walk over an expression, from front to back; `in_unsafe`
/// says that the expression lies in an unsafe region.
pub open spec fn steps_of(e: Expr, in_unsafe: bool) -> Seq<Step>
    decreases e, 0nat,
{
    match e.kind {
        ExprKind::Touch(effect) => seq![Step::Touch(effect, in_unsafe)] + steps_among(
            e.children@,
            e.children@.len(),
            in_unsafe,
        ),
        ExprKind::Block(is_unsafe) => steps_among(
            e.children@,
            e.children@.len(),
            in_unsafe || is_unsafe,
        ),
        ExprKind::Closure(params) => seq![Step::EnterClosure] + declarations(params@)
            + steps_among(e.children@, e.children@.len(), in_unsafe),
        _ => steps_among(e.children@, e.children@.len(), in_unsafe),
    }
}

/// The steps of the walk over the first `n` of the expressions.
pub open spec fn steps_among(es: Seq<Expr>, n: nat, in_unsafe: bool) -> Seq<Step>
    decreases es, n,
{
    if n == 0 || n > es.len() {
        Seq::empty()
    } else {
        steps_among(es, (n - 1) as nat, in_unsafe) + steps_of(es[n - 1], in_unsafe)
    }
}

/// The ids of the first `n` closures.
pub open spec fn ids_among(closures: Seq<ClosureBody>, n: nat) -> Set<u64>
    decreases n,
{
    if n == 0 || n > closures.len() {
        Set::empty()
    } else {
        ids_among(closures, (n - 1) as nat).insert(closures[n - 1].id)
    }
}

/// The steps of the walk over those of the first `n` closures that are new:
/// whose id is not among `checked` and stands for the first time in the list.
pub open spec fn new_closure_steps(
    closures: Seq<ClosureBody>,
    n: nat,
    checked: Set<u64>,
    in_unsafe: bool,
) -> Seq<Step>
    decreases n,
{
    if n == 0 || n > closures.len() {
        Seq::empty()
    } else {
        let before = new_closure_steps(closures, (n - 1) as nat, checked, in_unsafe);
        let id = closures[n - 1].id;
        if checked.contains(id) || ids_among(closures, (n - 1) as nat).contains(id) {
            before
        } else {
            before + steps_of(closures[n - 1].node, in_unsafe)
        }
    }
}

/// What a walk over `body` learns, its parameters being `params`;
/// `in_unsafe` says that the body lies in an unsafe region.
pub open spec fn usage_of(body: Expr, params: Seq<u64>, in_unsafe: bool) -> Usage {
    Usage::empty().run(declarations(params)).run(steps_of(body, in_unsafe))
}

/// The variables from outside that `body` may not share with other runs of
/// itself.
pub open spec fn unsafe_bindings(body: Expr, params: Seq<u64>, in_unsafe: bool) -> Set<u64> {
    usage_of(body, params, in_unsafe).unsafe_set()
}

/// Running two runs of steps one after the other is running them joined.
pub proof fn lemma_run_concat(start: Usage, first: Seq<Step>, second: Seq<Step>)
    ensures
        start.run(first + second) == start.run(first).run(second),
    decreases second.len(),
{
    if second.len() == 0 {
        assert(first + second =~= first);
    } else {
        assert((first + second).drop_last() =~= first + second.drop_last());
        assert((first + second).last() == second.last());
        lemma_run_concat(start, first, second.drop_last());
    }
}

/// Running a single step is taking it.
pub proof fn lemma_run_one(start: Usage, step: Step)
    ensures
        start.run(seq![step]) == start.step(step),
{
    assert(seq![step].drop_last() =~= Seq::<Step>::empty());
    assert(start.run(seq![step].drop_last()) == start);
}

/// The step declares the variable `var`: as a parameter, or by a pattern.
pub open spec fn declares(step: Step, var: u64) -> bool {
    match step {
        Step::Declare(id) => id == var,
        Step::Touch(Effect::Bind(place, _), _) => place.base.binding() == Some(var),
        _ => false,
    }
}

/// The step reads the variable `var` by duplication.
pub open spec fn duplicates(step: Step, var: u64) -> bool {
    match step {
        Step::Touch(Effect::Copy(place), _) => place.base.binding() == Some(var),
        _ => false,
    }
}

/// The step mutates the variable `var`, directly or through projections: it
/// assigns to a place rooted in it, borrows such a place exclusively, or
/// borrows it uniquely through an exclusive reference.
pub open spec fn mutates(step: Step, var: u64) -> bool {
    match step {
        Step::Touch(Effect::Mutate(place), _) => place.base.binding() == Some(var),
        Step::Touch(Effect::Borrow(place, kind), _) => place.base.binding() == Some(var) && (
        kind == BorrowKind::Exclusive || (kind == BorrowKind::UniqueShared
            && place.base_is_mut_ref)),
        _ => false,
    }
}

/// The step forms a reference, of whatever kind, to a place rooted in the
/// variable `var`, in an unsafe region.
pub open spec fn borrows_in_unsafe(step: Step, var: u64) -> bool {
    step matches Step::Touch(Effect::Borrow(place, _), true) && place.base.binding() == Some(var)
}

/// The step makes the variable `var` count as used exclusively: it mutates it,
/// or borrows it in an unsafe region.
pub open spec fn marks(step: Step, var: u64) -> bool {
    mutates(step, var) || borrows_in_unsafe(step, var)
}

/// Every touch among the steps lies in an unsafe region.
pub open spec fn all_in_unsafe(steps: Seq<Step>) -> bool {
    forall|i: int|
        0 <= i < steps.len() ==> (#[trigger] steps[i] matches Step::Touch(_, flag) ==> flag)
}

/// The type at which the step touches the variable `var`, if it touches it.
pub open spec fn touches_at(step: Step, var: u64) -> Option<u64> {
    match step {
        Step::Touch(effect, _) => {
            let place = match effect {
                Effect::Consume(place) => place,
                Effect::Borrow(place, _) => place,
                Effect::Mutate(place) => place,
                Effect::Copy(place) => place,
                Effect::FakeRead(place, _) => place,
                Effect::Bind(place, _) => place,
            };
            if place.base.binding() == Some(var) {
                Some(place.base_ty)
            } else {
                None
            }
        },
        _ => None,
    }
}

/// A step forgets no use, declaration or duplication; it declares and
/// duplicates only what it names; and a mutation, or a borrow in an unsafe
/// region, marks its variable.
pub proof fn lemma_step_keeps(before: Usage, step: Step, var: u64)
    ensures
        before.exclusive.contains(var) ==> before.step(step).exclusive.contains(var),
        before.local.contains(var) || declares(step, var) <==> before.step(step).local.contains(
            var,
        ),
        before.duplicated.contains(var) || duplicates(step, var) <==> before.step(
            step,
        ).duplicated.contains(var),
        marks(step, var) ==> before.step(step).exclusive.contains(var),
{
    if marks(step, var) {
        lemma_linked_self(before.aliases, var);
    }
}

/// A run of steps forgets no use, declaration or duplication.
pub proof fn lemma_run_keeps(before: Usage, steps: Seq<Step>, var: u64)
    ensures
        before.exclusive.contains(var) ==> before.run(steps).exclusive.contains(var),
        before.local.contains(var) ==> before.run(steps).local.contains(var),
        before.duplicated.contains(var) ==> before.run(steps).duplicated.contains(var),
    decreases steps.len(),
{
    if steps.len() > 0 {
        lemma_run_keeps(before, steps.drop_last(), var);
        lemma_step_keeps(before.run(steps.drop_last()), steps.last(), var);
    }
}

/// A run of steps declares and duplicates only what one of its steps names.
pub proof fn lemma_run_adds_named(before: Usage, steps: Seq<Step>, var: u64)
    ensures
        before.run(steps).local.contains(var) ==> before.local.contains(var) || exists|j: int|
            0 <= j < steps.len() && declares(#[trigger] steps[j], var),
        before.run(steps).duplicated.contains(var) ==> before.duplicated.contains(var)
            || exists|j: int| 0 <= j < steps.len() && duplicates(#[trigger] steps[j], var),
    decreases steps.len(),
{
    if steps.len() > 0 {
        let front = steps.drop_last();
        lemma_run_adds_named(before, front, var);
        lemma_step_keeps(before.run(front), steps.last(), var);
        if before.run(steps).local.contains(var) && !before.local.contains(var) {
            if declares(steps.last(), var) {
                assert(declares(steps[steps.len() - 1], var));
            } else {
                let j = choose|j: int| 0 <= j < front.len() && declares(#[trigger] front[j], var);
                assert(declares(steps[j], var));
            }
        }
        if before.run(steps).duplicated.contains(var) && !before.duplicated.contains(var) {
            if duplicates(steps.last(), var) {
                assert(duplicates(steps[steps.len() - 1], var));
            } else {
                let j = choose|j: int|
                    0 <= j < front.len() && duplicates(#[trigger] front[j], var);
                assert(duplicates(steps[j], var));
            }
        }
    }
}

/// What a run of steps learns is what its front learns, taken further by its
/// back.
pub proof fn lemma_run_split(before: Usage, steps: Seq<Step>, at: int)
    requires
        0 <= at <= steps.len(),
    ensures
        before.run(steps) == before.run(steps.take(at)).run(steps.skip(at)),
{
    assert(steps =~= steps.take(at) + steps.skip(at));
    lemma_run_concat(before, steps.take(at), steps.skip(at));
}

/// The parameters of a body are declared before its walk starts.
pub proof fn lemma_params_declared(params: Seq<u64>, var: u64)
    ensures
        Usage::empty().run(declarations(params)).local.contains(var) <==> params.contains(var),
        Usage::empty().run(declarations(params)).duplicated =~= Set::<u64>::empty(),
{
    let steps = declarations(params);
    lemma_run_adds_named(Usage::empty(), steps, var);
    if params.contains(var) {
        let j = choose|j: int| 0 <= j < params.len() && params[j] == var;
        lemma_run_split(Usage::empty(), steps, j + 1);
        let front = steps.take(j + 1);
        assert(front.last() == Step::Declare(var));
        lemma_step_keeps(Usage::empty().run(front.drop_last()), front.last(), var);
        lemma_run_keeps(Usage::empty().run(front), steps.skip(j + 1), var);
    }
    if Usage::empty().run(steps).local.contains(var) {
        let j = choose|j: int| 0 <= j < steps.len() && declares(#[trigger] steps[j], var);
        assert(params[j] == var);
    }
    assert forall|other: u64| !Usage::empty().run(steps).duplicated.contains(other) by {
        lemma_run_adds_named(Usage::empty(), steps, other);
    }
}

/// A variable from outside that a step of the body marks, and that the body
/// never reads by duplication, is one that the body may not share.
pub proof fn lemma_marked_is_unsafe(
    body: Expr,
    params: Seq<u64>,
    in_unsafe: bool,
    at: int,
    var: u64,
)
    requires
        0 <= at < steps_of(body, in_unsafe).len(),
        marks(steps_of(body, in_unsafe)[at], var),
        !params.contains(var),
        forall|j: int|
            0 <= j < steps_of(body, in_unsafe).len() ==> !declares(
                #[trigger] steps_of(body, in_unsafe)[j],
                var,
            ) && !duplicates(steps_of(body, in_unsafe)[j], var),
    ensures
        unsafe_bindings(body, params, in_unsafe).contains(var),
{
    let steps = steps_of(body, in_unsafe);
    let start = Usage::empty().run(declarations(params));
    lemma_params_declared(params, var);
    lemma_run_adds_named(start, steps, var);
    lemma_run_split(start, steps, at + 1);
    let front = steps.take(at + 1);
    assert(front.last() == steps[at]);
    lemma_step_keeps(start.run(front.drop_last()), front.last(), var);
    lemma_run_keeps(start.run(front), steps.skip(at + 1), var);
}

/// A variable from outside that a body mutates, directly or through field and
/// index projections, and never reads by duplication, is one that the body
/// may not share.
pub proof fn lemma_mutation_is_unsafe(
    body: Expr,
    params: Seq<u64>,
    in_unsafe: bool,
    at: int,
    var: u64,
)
    requires
        0 <= at < steps_of(body, in_unsafe).len(),
        mutates(steps_of(body, in_unsafe)[at], var),
        !params.contains(var),
        forall|j: int|
            0 <= j < steps_of(body, in_unsafe).len() ==> !declares(
                #[trigger] steps_of(body, in_unsafe)[j],
                var,
            ) && !duplicates(steps_of(body, in_unsafe)[j], var),
    ensures
        unsafe_bindings(body, params, in_unsafe).contains(var),
{
    lemma_marked_is_unsafe(body, params, in_unsafe, at, var);
}

/// A variable from outside that a body borrows in an unsafe region, be it by
/// a shared reference only, and never reads by duplication, is one that the
/// body may not share.
pub proof fn lemma_unsafe_borrow_is_unsafe(
    body: Expr,
    params: Seq<u64>,
    in_unsafe: bool,
    at: int,
    var: u64,
)
    requires
        0 <= at < steps_of(body, in_unsafe).len(),
        borrows_in_unsafe(steps_of(body, in_unsafe)[at], var),
        !params.contains(var),
        forall|j: int|
            0 <= j < steps_of(body, in_unsafe).len() ==> !declares(
                #[trigger] steps_of(body, in_unsafe)[j],
                var,
            ) && !duplicates(steps_of(body, in_unsafe)[j], var),
    ensures
        unsafe_bindings(body, params, in_unsafe).contains(var),
{
    lemma_marked_is_unsafe(body, params, in_unsafe, at, var);
}

/// Every touch of a body that lies in an unsafe region lies in one.
pub proof fn lemma_unsafe_region_covers(e: Expr)
    ensures
        all_in_unsafe(steps_of(e, true)),
    decreases e, 0nat,
{
    let n = e.children@.len();
    lemma_unsafe_region_covers_among(e.children@, n);
    let tail = steps_among(e.children@, n, true);
    match e.kind {
        ExprKind::Touch(effect) => {
            let head = seq![Step::Touch(effect, true)];
            lemma_all_in_unsafe_concat(head, tail);
        },
        ExprKind::Block(is_unsafe) => {},
        ExprKind::Closure(params) => {
            let head = seq![Step::EnterClosure] + declarations(params@);
            lemma_all_in_unsafe_concat(head, tail);
        },
        _ => {},
    }
}

/// Every touch of the first `n` expressions, which lie in an unsafe region,
/// lies in one.
pub proof fn lemma_unsafe_region_covers_among(es: Seq<Expr>, n: nat)
    requires
        n <= es.len(),
    ensures
        all_in_unsafe(steps_among(es, n, true)),
    decreases es, n,
{
    if n > 0 {
        lemma_unsafe_region_covers_among(es, (n - 1) as nat);
        lemma_unsafe_region_covers(es[n - 1]);
        lemma_all_in_unsafe_concat(steps_among(es, (n - 1) as nat, true), steps_of(es[n - 1], true));
    }
}

/// Steps that all lie in an unsafe region do so one run after another.
pub proof fn lemma_all_in_unsafe_concat(first: Seq<Step>, second: Seq<Step>)
    requires
        all_in_unsafe(first),
        all_in_unsafe(second),
    ensures
        all_in_unsafe(first + second),
{
    assert forall|i: int| 0 <= i < (first + second).len() implies (#[trigger] (first
        + second)[i] matches Step::Touch(_, flag) ==> flag) by {
        if i < first.len() {
            assert((first + second)[i] == first[i]);
        } else {
            assert((first + second)[i] == second[i - first.len()]);
        }
    }
}

/// A variable that the body declares, as a parameter or by a pattern, is
/// never among those that it may not share, however it is mutated.
pub proof fn lemma_declared_is_exempt(body: Expr, params: Seq<u64>, in_unsafe: bool, var: u64)
    requires
        params.contains(var) || exists|j: int|
            0 <= j < steps_of(body, in_unsafe).len() && declares(
                #[trigger] steps_of(body, in_unsafe)[j],
                var,
            ),
    ensures
        !unsafe_bindings(body, params, in_unsafe).contains(var),
{
    let steps = steps_of(body, in_unsafe);
    let start = Usage::empty().run(declarations(params));
    lemma_params_declared(params, var);
    if params.contains(var) {
        lemma_run_keeps(start, steps, var);
    } else {
        let j = choose|j: int| 0 <= j < steps.len() && declares(#[trigger] steps[j], var);
        lemma_run_split(start, steps, j + 1);
        let front = steps.take(j + 1);
        assert(front.last() == steps[j]);
        lemma_step_keeps(start.run(front.drop_last()), front.last(), var);
        lemma_run_keeps(start.run(front), steps.skip(j + 1), var);
    }
}

/// Where a pattern introduces `alias`, the next step initialises it from the
/// variable `source`, and the step after mutates `alias`, the mutation is one
/// of `source`: after the three steps `source` is used exclusively and `alias`
/// is declared.
pub proof fn lemma_rebinding_marks_source(
    before: Usage,
    bind: Step,
    init: Step,
    change: Step,
    alias: u64,
    source: u64,
)
    requires
        alias != source,
        bind matches Step::Touch(Effect::Bind(place, id), _) && id == alias
            && place.base.binding() == Some(alias),
        init matches Step::Touch(Effect::Consume(place), _) && place.base.binding() == Some(
            source,
        ),
        mutates(change, alias),
        !linked(before.aliases, source, alias),
    ensures
        before.step(bind).step(init).aliases == before.aliases.insert(alias, source),
        before.step(bind).step(init).step(change).exclusive.contains(source),
        before.step(bind).step(init).step(change).local.contains(alias),
{
    let bound = before.step(bind);
    let rebound = bound.step(init);
    assert(bound.aliases == before.aliases);
    assert(bound.prev_bind == Some(alias));
    assert(rebound.aliases == before.aliases.insert(alias, source));
    lemma_linked_self(rebound.aliases, source);
    lemma_linked_step(rebound.aliases, alias, source);
    lemma_step_keeps(before, bind, alias);
    lemma_step_keeps(bound, init, alias);
    lemma_step_keeps(rebound, change, alias);
}

/// Rebinding: where a body holds `let alias = source;` and next mutates
/// `alias`, the variable from outside that it may not share is `source`, not
/// `alias`.
pub proof fn lemma_rebinding_blames_source(
    body: Expr,
    params: Seq<u64>,
    in_unsafe: bool,
    at: int,
    alias: u64,
    source: u64,
)
    requires
        alias != source,
        0 <= at,
        at + 2 < steps_of(body, in_unsafe).len(),
        steps_of(body, in_unsafe)[at] matches Step::Touch(Effect::Bind(place, id), _) && id == alias
            && place.base.binding() == Some(alias),
        steps_of(body, in_unsafe)[at + 1] matches Step::Touch(Effect::Consume(place), _)
            && place.base.binding() == Some(source),
        mutates(steps_of(body, in_unsafe)[at + 2], alias),
        !linked(
            Usage::empty().run(declarations(params)).run(
                steps_of(body, in_unsafe).take(at),
            ).aliases,
            source,
            alias,
        ),
        !params.contains(source),
        forall|j: int|
            0 <= j < steps_of(body, in_unsafe).len() ==> !declares(
                #[trigger] steps_of(body, in_unsafe)[j],
                source,
            ) && !duplicates(steps_of(body, in_unsafe)[j], source),
    ensures
        unsafe_bindings(body, params, in_unsafe).contains(source),
        !unsafe_bindings(body, params, in_unsafe).contains(alias),
{
    let steps = steps_of(body, in_unsafe);
    let start = Usage::empty().run(declarations(params));
    let before = start.run(steps.take(at));
    lemma_rebinding_marks_source(before, steps[at], steps[at + 1], steps[at + 2], alias, source);
    lemma_run_split(start, steps, at + 3);
    let front = steps.take(at + 3);
    assert(front.drop_last() =~= steps.take(at + 2));
    assert(steps.take(at + 2).drop_last() =~= steps.take(at + 1));
    assert(steps.take(at + 1).drop_last() =~= steps.take(at));
    assert(front.last() == steps[at + 2]);
    assert(steps.take(at + 2).last() == steps[at + 1]);
    assert(steps.take(at + 1).last() == steps[at]);
    assert(start.run(steps.take(at + 1)) == before.step(steps[at]));
    assert(start.run(steps.take(at + 2)) == before.step(steps[at]).step(steps[at + 1]));
    assert(start.run(front) == before.step(steps[at]).step(steps[at + 1]).step(steps[at + 2]));
    lemma_run_keeps(start.run(front), steps.skip(at + 3), source);
    lemma_run_keeps(start.run(front), steps.skip(at + 3), alias);
    lemma_params_declared(params, source);
    lemma_run_adds_named(start, steps, source);
}

/// A step records the type of the variable whose place it touches, and
/// forgets no type.
pub proof fn lemma_step_types(before: Usage, step: Step, var: u64)
    ensures
        before.types.contains_key(var) ==> before.step(step).types.contains_key(var),
        marks(step, var) ==> before.step(step).types.contains_key(var),
        before.step(step).types.contains_key(var) ==> touches_at(step, var) == Some(
            before.step(step).types[var],
        ) || (before.types.contains_key(var) && before.types[var] == before.step(
            step,
        ).types[var]),
{
}

/// The type that a run of steps knows of a variable is one at which a step
/// touched it, or the one known before; and the run forgets no type.
pub proof fn lemma_run_types(before: Usage, steps: Seq<Step>, var: u64)
    ensures
        before.types.contains_key(var) ==> before.run(steps).types.contains_key(var),
        before.run(steps).types.contains_key(var) ==> (before.types.contains_key(var)
            && before.types[var] == before.run(steps).types[var]) || exists|j: int|
            0 <= j < steps.len() && touches_at(#[trigger] steps[j], var) == Some(
                before.run(steps).types[var],
            ),
    decreases steps.len(),
{
    if steps.len() > 0 {
        let front = steps.drop_last();
        lemma_run_types(before, front, var);
        lemma_step_types(before.run(front), steps.last(), var);
        let after = before.run(steps);
        if after.types.contains_key(var) && !(before.types.contains_key(var)
            && before.types[var] == after.types[var]) {
            if touches_at(steps.last(), var) == Some(after.types[var]) {
                assert(touches_at(steps[steps.len() - 1], var) == Some(after.types[var]));
            } else {
                let j = choose|j: int|
                    0 <= j < front.len() && touches_at(#[trigger] front[j], var) == Some(
                        before.run(front).types[var],
                    );
                assert(touches_at(steps[j], var) == Some(after.types[var]));
            }
        }
    }
}

/// Declaring parameters records no type.
pub proof fn lemma_params_untyped(params: Seq<u64>, var: u64)
    ensures
        !Usage::empty().run(declarations(params)).types.contains_key(var),
{
    let steps = declarations(params);
    lemma_run_types(Usage::empty(), steps, var);
    if Usage::empty().run(steps).types.contains_key(var) {
        let j = choose|j: int|
            0 <= j < steps.len() && touches_at(#[trigger] steps[j], var) == Some(
                Usage::empty().run(steps).types[var],
            );
        assert(steps[j] == Step::Declare(params[j]));
    }
}

} // verus!
