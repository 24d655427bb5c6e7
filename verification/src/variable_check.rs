use crate::alias::AliasGraph;
use crate::alias::acyclic;
use crate::alias::chain;
use crate::alias::lemma_chain_unfold;
use crate::alias::ranked;
use crate::capability::TypeCapability;
use crate::capability::TypeOracle;
use crate::capability::type_is_safe;
use crate::idset::IdMap;
use crate::idset::IdSet;
use crate::idset::map_get;
use crate::idset::map_insert;
use crate::idset::map_new;
use crate::idset::set_clear;
use crate::idset::set_contains;
use crate::idset::set_insert;
use crate::idset::set_items;
use crate::idset::set_new;
use crate::idset::set_remove;
use crate::syntax::BorrowKind;
use crate::syntax::ClosureBody;
use crate::syntax::Effect;
use crate::syntax::Expr;
use crate::syntax::ExprKind;
use crate::syntax::Place;
use crate::syntax::PlaceBase;
use crate::usage::Step;
use crate::usage::Usage;
use crate::usage::declarations;
use crate::usage::ids_among;
use crate::usage::new_closure_steps;
use crate::usage::declares;
use crate::usage::duplicates;
use crate::usage::borrows_in_unsafe;
use crate::usage::lemma_marked_is_unsafe;
use crate::usage::lemma_unsafe_region_covers;
use crate::usage::marks;
use crate::usage::lemma_params_untyped;
use crate::usage::lemma_run_split;
use crate::usage::lemma_run_types;
use crate::usage::lemma_step_types;
use crate::usage::mutates;
use crate::usage::touches_at;
use crate::usage::lemma_run_concat;
use crate::usage::lemma_run_one;
use crate::usage::steps_among;
use crate::usage::steps_of;
use crate::usage::unsafe_bindings;
use crate::usage::usage_of;
use vstd::prelude::*;

verus! {

/// How a body uses one variable.
#[derive(Clone, Copy, Debug, PartialEq, Eq, Structural)]
pub struct CaptureRecord {
    pub consumed: bool,
    pub shared_borrowed: bool,
    pub exclusive_borrowed: bool,
    pub duplicated: bool,
    pub locally_declared: bool,
}

/// The record of `id` in what a walk has learnt.
pub open spec fn record_of(usage: Usage, id: u64) -> CaptureRecord {
    CaptureRecord {
        consumed: usage.consumed.contains(id),
        shared_borrowed: usage.shared.contains(id),
        exclusive_borrowed: usage.exclusive.contains(id),
        duplicated: usage.duplicated.contains(id),
        locally_declared: usage.local.contains(id),
    }
}

/// Every variable that may not be shared has a type that may cross the
/// concurrency boundary. A variable whose type is not known has none.
pub open spec fn variables_safe(usage: Usage, answers: Map<u64, TypeCapability>) -> bool {
    forall|id: u64| #[trigger]
        usage.unsafe_set().contains(id) ==> usage.types.contains_key(id) && type_is_safe(
            answers,
            usage.types[id],
        )
}

/// The state of one walk over a body: which variables it has seen used in
/// which way, and which stand for which.
pub struct MutablyUsedVariablesCtxt {
    consumed_vars: IdSet,
    shared_vars: IdSet,
    mutably_used_vars: IdSet,
    copied_vars: IdSet,
    locally_bind_vars: IdSet,
    var_types: IdMap,
    prev_bind: Option<u64>,
    prev_move_to_closure: IdSet,
    aliases: AliasGraph,
}

impl View for MutablyUsedVariablesCtxt {
    type V = Usage;

    closed spec fn view(&self) -> Usage {
        Usage {
            consumed: self.consumed_vars@,
            shared: self.shared_vars@,
            exclusive: self.mutably_used_vars@,
            duplicated: self.copied_vars@,
            local: self.locally_bind_vars@,
            types: self.var_types@,
            aliases: self.aliases@,
            prev_bind: self.prev_bind,
            moved: self.prev_move_to_closure@,
        }
    }
}

impl MutablyUsedVariablesCtxt {
    /// The rebindings hold no cycle.
    pub open spec fn wf(&self) -> bool {
        acyclic(self@.aliases)
    }

    /// The state before the walk.
    pub fn new() -> (ctx: MutablyUsedVariablesCtxt)
        ensures
            ctx.wf(),
            ctx@ == Usage::empty(),
    {
        let ctx = MutablyUsedVariablesCtxt {
            consumed_vars: set_new(),
            shared_vars: set_new(),
            mutably_used_vars: set_new(),
            copied_vars: set_new(),
            locally_bind_vars: set_new(),
            var_types: map_new(),
            prev_bind: None,
            prev_move_to_closure: set_new(),
            aliases: AliasGraph::new(),
        };
        ctx
    }

    /// Marks `used_id` as used exclusively, and with it every variable that it
    /// is a rebinding of.
    pub fn add_mutably_used_var(&mut self, used_id: u64)
        requires
            old(self).wf(),
        ensures
            final(self).wf(),
            final(self)@ == old(self)@.mark_exclusive(used_id),
    {
        let ghost edges = self@.aliases;
        let ghost rank = choose|rank: spec_fn(u64) -> nat| ranked(edges, rank);
        let mut at = used_id;
        let mut next = self.aliases.target(at);
        while next.is_some()
            invariant
                ranked(edges, rank),
                edges == old(self)@.aliases,
                self@ == (Usage { exclusive: self@.exclusive, ..old(self)@ }),
                next == (if edges.contains_key(at) {
                    Some(edges[at])
                } else {
                    None
                }),
                self@.exclusive.union(chain(edges, at)) =~= old(self)@.exclusive.union(
                    chain(edges, used_id),
                ),
            decreases rank(at),
        {
            proof {
                lemma_chain_unfold(edges, at);
            }
            set_insert(&mut self.mutably_used_vars, at);
            at = next.unwrap();
            next = self.aliases.target(at);
        }
        proof {
            lemma_chain_unfold(edges, at);
        }
        set_insert(&mut self.mutably_used_vars, at);
        assert(self@.exclusive =~= old(self)@.exclusive.union(chain(edges, used_id)));
    }

    /// Lets `alias` stand for `target`, unless that would close a cycle.
    pub fn add_alias(&mut self, alias: u64, target: u64)
        requires
            old(self).wf(),
        ensures
            final(self).wf(),
            final(self)@ == old(self)@.alias(alias, target),
    {
        self.aliases.add_alias(alias, target);
    }

    /// Records that the variable `id` has the type `ty`.
    fn note_type(&mut self, id: u64, ty: u64)
        ensures
            final(self)@ == (Usage { types: old(self)@.types.insert(id, ty), ..old(self)@ }),
    {
        map_insert(&mut self.var_types, id, ty);
    }

    /// The value of a place is read and released.
    pub fn consume(&mut self, place: &Place, in_unsafe: bool)
        requires
            old(self).wf(),
        ensures
            final(self).wf(),
            final(self)@ == old(self)@.consume(*place, in_unsafe),
    {
        if let Some(id) = place.base.variable() {
            set_insert(&mut self.consumed_vars, id);
            self.note_type(id, place.base_ty);
            let moved = set_contains(&self.prev_move_to_closure, id);
            match self.prev_bind {
                Some(bound) => {
                    if bound != id {
                        self.add_alias(bound, id);
                    }
                },
                None => {
                    if (!moved && place.base_is_mut_ref) || in_unsafe {
                        self.add_mutably_used_var(id);
                    }
                },
            }
            self.prev_bind = None;
            set_remove(&mut self.prev_move_to_closure, id);
        }
    }

    /// A reference to a place is formed.
    pub fn borrow(&mut self, place: &Place, kind: BorrowKind, in_unsafe: bool)
        requires
            old(self).wf(),
        ensures
            final(self).wf(),
            final(self)@ == old(self)@.borrow(*place, kind, in_unsafe),
    {
        self.prev_bind = None;
        if let Some(id) = place.base.variable() {
            let exclusive = match kind {
                BorrowKind::Exclusive => true,
                _ => false,
            };
            let unique = match kind {
                BorrowKind::UniqueShared => true,
                _ => false,
            };
            if !exclusive {
                set_insert(&mut self.shared_vars, id);
            }
            self.note_type(id, place.base_ty);
            if exclusive || (unique && place.base_is_mut_ref) || in_unsafe {
                self.add_mutably_used_var(id);
            }
        }
    }

    /// A place is assigned to.
    pub fn mutate(&mut self, place: &Place)
        requires
            old(self).wf(),
        ensures
            final(self).wf(),
            final(self)@ == old(self)@.mutate(*place),
    {
        self.prev_bind = None;
        if let Some(id) = place.base.variable() {
            self.note_type(id, place.base_ty);
            self.add_mutably_used_var(id);
        }
    }

    /// The value of a place is duplicated.
    pub fn copy(&mut self, place: &Place, in_unsafe: bool)
        requires
            old(self).wf(),
        ensures
            final(self).wf(),
            final(self)@ == old(self)@.copy(*place, in_unsafe),
    {
        self.prev_bind = None;
        if let Some(id) = place.base.variable() {
            set_insert(&mut self.copied_vars, id);
            self.note_type(id, place.base_ty);
            if in_unsafe {
                self.add_mutably_used_var(id);
            }
        }
    }

    /// A captured variable is inspected.
    pub fn fake_read(&mut self, place: &Place, into_closure: bool)
        requires
            old(self).wf(),
        ensures
            final(self).wf(),
            final(self)@ == old(self)@.fake_read(*place, into_closure),
    {
        if let PlaceBase::Upvar(id) = place.base {
            self.note_type(id, place.base_ty);
            if into_closure {
                self.add_alias(place.node, id);
                set_insert(&mut self.prev_move_to_closure, id);
                self.prev_bind = None;
            }
        }
    }

    /// A pattern introduces the binding `id` at a place.
    pub fn bind(&mut self, place: &Place, id: u64, in_unsafe: bool)
        requires
            old(self).wf(),
        ensures
            final(self).wf(),
            final(self)@ == old(self)@.bind(*place, id, in_unsafe),
    {
        self.prev_bind = Some(id);
        if let Some(var) = place.base.variable() {
            set_insert(&mut self.locally_bind_vars, var);
            if in_unsafe {
                self.add_mutably_used_var(var);
            }
        }
    }

    /// Takes one touch into account.
    pub fn touch(&mut self, effect: &Effect, in_unsafe: bool)
        requires
            old(self).wf(),
        ensures
            final(self).wf(),
            final(self)@ == old(self)@.touch(*effect, in_unsafe),
    {
        match effect {
            Effect::Consume(place) => self.consume(place, in_unsafe),
            Effect::Borrow(place, kind) => self.borrow(place, *kind, in_unsafe),
            Effect::Mutate(place) => self.mutate(place),
            Effect::Copy(place) => self.copy(place, in_unsafe),
            Effect::FakeRead(place, into_closure) => self.fake_read(place, *into_closure),
            Effect::Bind(place, id) => self.bind(place, *id, in_unsafe),
        }
    }

    /// Brings the parameters of a body into scope.
    pub fn declare_params(&mut self, params: &Vec<u64>)
        requires
            old(self).wf(),
        ensures
            final(self).wf(),
            final(self)@ == old(self)@.run(declarations(params@)),
    {
        let ghost all = declarations(params@);
        let mut i: usize = 0;
        while i < params.len()
            invariant
                i <= params@.len(),
                all == declarations(params@),
                self.wf(),
                self@ == old(self)@.run(all.subrange(0, i as int)),
            decreases params@.len() - i,
        {
            set_insert(&mut self.locally_bind_vars, params[i]);
            proof {
                let longer = all.subrange(0, i + 1);
                assert(longer.drop_last() =~= all.subrange(0, i as int));
                assert(longer.last() == Step::Declare(params@[i as int]));
            }
            i = i + 1;
        }
        assert(all.subrange(0, i as int) =~= all);
    }

    /// Enters the body of a closure.
    fn enter_closure(&mut self)
        requires
            old(self).wf(),
        ensures
            final(self).wf(),
            final(self)@ == old(self)@.enter_closure(),
    {
        self.prev_bind = None;
        set_clear(&mut self.prev_move_to_closure);
    }

    /// Walks an expression from front to back, nested closures included, and
    /// takes every touch into account.
    pub fn walk(&mut self, e: &Expr, in_unsafe: bool)
        requires
            old(self).wf(),
        ensures
            final(self).wf(),
            final(self)@ == old(self)@.run(steps_of(*e, in_unsafe)),
        decreases e,
    {
        let mut inner_unsafe = in_unsafe;
        let ghost mut head: Seq<Step> = Seq::empty();
        match &e.kind {
            ExprKind::Touch(effect) => {
                self.touch(effect, in_unsafe);
                proof {
                    head = seq![Step::Touch(*effect, in_unsafe)];
                    lemma_run_one(old(self)@, Step::Touch(*effect, in_unsafe));
                }
            },
            ExprKind::Block(is_unsafe) => {
                inner_unsafe = in_unsafe || *is_unsafe;
            },
            ExprKind::Closure(params) => {
                self.enter_closure();
                self.declare_params(params);
                proof {
                    head = seq![Step::EnterClosure] + declarations(params@);
                    lemma_run_one(old(self)@, Step::EnterClosure);
                    lemma_run_concat(old(self)@, seq![Step::EnterClosure], declarations(params@));
                }
            },
            _ => {},
        }
        let ghost mid = self@;
        assert(mid == old(self)@.run(head));
        let mut i: usize = 0;
        while i < e.children.len()
            invariant
                i <= e.children@.len(),
                self.wf(),
                self@ == mid.run(steps_among(e.children@, i as nat, inner_unsafe)),
            decreases e.children@.len() - i,
        {
            let ghost done = steps_among(e.children@, i as nat, inner_unsafe);
            self.walk(&e.children[i], inner_unsafe);
            proof {
                lemma_run_concat(mid, done, steps_of(e.children@[i as int], inner_unsafe));
            }
            i = i + 1;
        }
        proof {
            let tail = steps_among(e.children@, e.children@.len(), inner_unsafe);
            lemma_run_concat(old(self)@, head, tail);
            assert(steps_of(*e, in_unsafe) =~= head + tail);
        }
    }

    /// How the walk has seen `id` used.
    pub fn record(&self, id: u64) -> (r: CaptureRecord)
        ensures
            r == record_of(self@, id),
    {
        CaptureRecord {
            consumed: set_contains(&self.consumed_vars, id),
            shared_borrowed: set_contains(&self.shared_vars, id),
            exclusive_borrowed: set_contains(&self.mutably_used_vars, id),
            duplicated: set_contains(&self.copied_vars, id),
            locally_declared: set_contains(&self.locally_bind_vars, id),
        }
    }

    /// The type that `id` was last touched at, if it was touched.
    pub fn type_of(&self, id: u64) -> (ty: Option<u64>)
        ensures
            ty == (if self@.types.contains_key(id) {
                Some(self@.types[id])
            } else {
                None
            }),
    {
        map_get(&self.var_types, id)
    }

    /// The variables from outside that may not be shared, each once, in no
    /// particular order.
    pub fn unsafe_vars(&self) -> (vars: Vec<u64>)
        ensures
            vars@.no_duplicates(),
            vars@.to_set() == self@.unsafe_set(),
    {
        let used = set_items(&self.mutably_used_vars);
        let mut vars: Vec<u64> = Vec::new();
        let mut i: usize = 0;
        assert(vars@.to_set() =~= used@.take(0).to_set().intersect(self@.unsafe_set()));
        while i < used.len()
            invariant
                i <= used@.len(),
                used@.no_duplicates(),
                used@.to_set() == self@.exclusive,
                vars@.no_duplicates(),
                vars@.to_set() == used@.take(i as int).to_set().intersect(self@.unsafe_set()),
            decreases used@.len() - i,
        {
            let id = used[i];
            let keep = !set_contains(&self.locally_bind_vars, id) && !set_contains(
                &self.copied_vars,
                id,
            );
            let ghost seen = used@.take(i as int);
            let ghost kept = vars@;
            proof {
                assert(used@.take(i + 1) =~= seen.push(id));
                seen.lemma_push_to_set_commute(id);
                kept.lemma_push_to_set_commute(id);
                assert(used@.to_set().contains(id)) by {
                    assert(used@[i as int] == id);
                }
                lemma_fresh_item(used@, i as int);
                assert(!kept.contains(id)) by {
                    if kept.contains(id) {
                        assert(kept.to_set().contains(id));
                    }
                }
                lemma_push_fresh(kept, id);
            }
            if keep {
                vars.push(id);
            }
            assert(vars@.to_set() =~= used@.take(i + 1).to_set().intersect(
                self@.unsafe_set(),
            ));
            i = i + 1;
        }
        assert(used@.take(i as int) =~= used@);
        assert(vars@.to_set() =~= self@.unsafe_set());
        vars
    }

    /// Whether `id` is a variable from outside that may not be shared.
    pub fn is_unsafe_var(&self, id: u64) -> (found: bool)
        ensures
            found == self@.unsafe_set().contains(id),
    {
        set_contains(&self.mutably_used_vars, id) && !set_contains(&self.locally_bind_vars, id)
            && !set_contains(&self.copied_vars, id)
    }

    /// Whether every variable that may not be shared has a type that the
    /// oracle allows across the concurrency boundary.
    pub fn all_safe(&self, oracle: &TypeOracle) -> (safe: bool)
        ensures
            safe == variables_safe(self@, oracle@),
    {
        let vars = self.unsafe_vars();
        let mut i: usize = 0;
        while i < vars.len()
            invariant
                i <= vars@.len(),
                vars@.to_set() == self@.unsafe_set(),
                forall|j: int|
                    0 <= j < i ==> self@.types.contains_key(#[trigger] vars@[j]) && type_is_safe(
                        oracle@,
                        self@.types[vars@[j]],
                    ),
            decreases vars@.len() - i,
        {
            let id = vars[i];
            assert(vars@.to_set().contains(id)) by {
                assert(vars@[i as int] == id);
            }
            let safe = match self.type_of(id) {
                Some(ty) => oracle.is_type_valid(ty),
                None => false,
            };
            if !safe {
                return false;
            }
            i = i + 1;
        }
        proof {
            assert forall|id: u64| #[trigger]
                self@.unsafe_set().contains(id) implies self@.types.contains_key(id)
                && type_is_safe(oracle@, self@.types[id]) by {
                assert(vars@.to_set().contains(id));
                let j = choose|j: int| 0 <= j < vars@.len() && vars@[j] == id;
            }
        }
        true
    }
}

/// An item of a sequence without duplicates is not among the items before it.
proof fn lemma_fresh_item(s: Seq<u64>, at: int)
    requires
        s.no_duplicates(),
        0 <= at < s.len(),
    ensures
        !s.take(at).contains(s[at]),
{
    if s.take(at).contains(s[at]) {
        let j = choose|j: int| 0 <= j < s.take(at).len() && s.take(at)[j] == s[at];
        assert(s[j] == s[at]);
    }
}

/// A sequence without duplicates has none after a new item is pushed.
proof fn lemma_push_fresh(s: Seq<u64>, v: u64)
    requires
        s.no_duplicates(),
        !s.contains(v),
    ensures
        s.push(v).no_duplicates(),
{
    assert forall|i: int, j: int|
        0 <= i < s.push(v).len() && 0 <= j < s.push(v).len() && i != j implies s.push(v)[i]
        != s.push(v)[j] by {
        if i < s.len() && j < s.len() {
            assert(s[i] != s[j]);
        } else if i < s.len() {
            assert(s.contains(s[i]));
        } else {
            assert(s.contains(s[j]));
        }
    }
}

/// Walks `body`, whose parameters are `params`, and returns the variables from
/// outside that it may not share: each once, in no particular order.
/// `in_unsafe` says that the body lies in an unsafe region: in an unsafe
/// function, or under an unsafe block.
pub fn analyze(body: &Expr, params: &Vec<u64>, in_unsafe: bool) -> (vars: Vec<u64>)
    ensures
        vars@.no_duplicates(),
        vars@.to_set() == unsafe_bindings(*body, params@, in_unsafe),
{
    let mut ctx = MutablyUsedVariablesCtxt::new();
    ctx.declare_params(params);
    ctx.walk(body, in_unsafe);
    ctx.unsafe_vars()
}

/// Walks, with the state `ctx`, each of the closures that was not walked
/// before, and notes it in `checked_closures`: a closure whose id is noted
/// there, or stands earlier in the list, is passed over. `walk` enters by itself
/// the closures that a body holds; this is for closures that are given apart
/// from a body.
pub fn check_closures(
    ctx: &mut MutablyUsedVariablesCtxt,
    checked_closures: &mut IdSet,
    closures: &Vec<ClosureBody>,
    in_unsafe: bool,
)
    requires
        old(ctx).wf(),
    ensures
        final(ctx).wf(),
        final(checked_closures)@ == old(checked_closures)@.union(
            ids_among(closures@, closures@.len()),
        ),
        final(ctx)@ == old(ctx)@.run(
            new_closure_steps(closures@, closures@.len(), old(checked_closures)@, in_unsafe),
        ),
{
    let mut i: usize = 0;
    assert(checked_closures@ =~= old(checked_closures)@.union(ids_among(closures@, 0)));
    while i < closures.len()
        invariant
            i <= closures@.len(),
            ctx.wf(),
            checked_closures@ == old(checked_closures)@.union(ids_among(closures@, i as nat)),
            ctx@ == old(ctx)@.run(
                new_closure_steps(closures@, i as nat, old(checked_closures)@, in_unsafe),
            ),
        decreases closures@.len() - i,
    {
        let ghost done = new_closure_steps(closures@, i as nat, old(checked_closures)@, in_unsafe);
        let fresh = set_insert(checked_closures, closures[i].id);
        if fresh {
            ctx.walk(&closures[i].node, in_unsafe);
            proof {
                lemma_run_concat(old(ctx)@, done, steps_of(closures@[i as int].node, in_unsafe));
            }
        }
        assert(checked_closures@ =~= old(checked_closures)@.union(
            ids_among(closures@, (i + 1) as nat),
        ));
        i = i + 1;
    }
}

/// Whether `body`, whose parameters are `params`, may run concurrently against
/// its environment: every variable that it may not share has a type that the
/// oracle allows across the concurrency boundary. `in_unsafe` says that the
/// body lies in an unsafe region.
pub fn check_variables(body: &Expr, params: &Vec<u64>, oracle: &TypeOracle, in_unsafe: bool) -> (safe:
    bool)
    ensures
        safe == variables_safe(usage_of(*body, params@, in_unsafe), oracle@),
{
    let mut ctx = MutablyUsedVariablesCtxt::new();
    ctx.declare_params(params);
    ctx.walk(body, in_unsafe);
    ctx.all_safe(oracle)
}

/// Values are duplicated only at types that the oracle calls duplicable.
pub open spec fn duplicates_soundly(steps: Seq<Step>, answers: Map<u64, TypeCapability>) -> bool {
    forall|j: int, var: u64|
        0 <= j < steps.len() && #[trigger] duplicates(steps[j], var) ==> (touches_at(
            steps[j],
            var,
        ) matches Some(ty) && answers.contains_key(ty) && answers[ty].duplicable)
}

/// A body of which a step marks a variable from outside is refused by
/// `check_variables` when the variable's type is neither duplicable nor both
/// transferable and shareable: the variable is among those that the body may
/// not share.
pub proof fn lemma_unshareable_mark_fails(
    body: Expr,
    params: Seq<u64>,
    answers: Map<u64, TypeCapability>,
    in_unsafe: bool,
    at: int,
    var: u64,
)
    requires
        0 <= at < steps_of(body, in_unsafe).len(),
        marks(steps_of(body, in_unsafe)[at], var),
        !params.contains(var),
        forall|j: int|
            0 <= j < steps_of(body, in_unsafe).len() ==> !declares(
                #[trigger] steps_of(body, in_unsafe)[j],
                var,
            ),
        forall|j: int|
            0 <= j < steps_of(body, in_unsafe).len() ==> (touches_at(
                #[trigger] steps_of(body, in_unsafe)[j],
                var,
            ) matches Some(ty) ==> !type_is_safe(answers, ty)),
        duplicates_soundly(steps_of(body, in_unsafe), answers),
    ensures
        unsafe_bindings(body, params, in_unsafe).contains(var),
        !variables_safe(usage_of(body, params, in_unsafe), answers),
{
    let steps = steps_of(body, in_unsafe);
    let start = Usage::empty().run(declarations(params));
    assert forall|j: int| 0 <= j < steps.len() implies !duplicates(#[trigger] steps[j], var) by {
        if duplicates(steps[j], var) {
            let ty = touches_at(steps[j], var)->0;
            assert(type_is_safe(answers, ty));
        }
    }
    lemma_marked_is_unsafe(body, params, in_unsafe, at, var);
    lemma_params_untyped(params, var);
    lemma_run_split(start, steps, at + 1);
    let front = steps.take(at + 1);
    assert(front.last() == steps[at]);
    lemma_step_types(start.run(front.drop_last()), front.last(), var);
    lemma_run_types(start.run(front), steps.skip(at + 1), var);
    lemma_run_types(start, steps, var);
    let usage = usage_of(body, params, in_unsafe);
    assert(usage.types.contains_key(var));
    assert(usage.unsafe_set().contains(var));
    assert(!type_is_safe(answers, usage.types[var]));
}

/// A body that mutates a variable from outside, directly or through field and
/// index projections, is refused by `check_variables` when the variable's
/// type is neither duplicable nor both transferable and shareable: the
/// variable is among those that the body may not share.
pub proof fn lemma_unshareable_mutation_fails(
    body: Expr,
    params: Seq<u64>,
    answers: Map<u64, TypeCapability>,
    in_unsafe: bool,
    at: int,
    var: u64,
)
    requires
        0 <= at < steps_of(body, in_unsafe).len(),
        mutates(steps_of(body, in_unsafe)[at], var),
        !params.contains(var),
        forall|j: int|
            0 <= j < steps_of(body, in_unsafe).len() ==> !declares(
                #[trigger] steps_of(body, in_unsafe)[j],
                var,
            ),
        forall|j: int|
            0 <= j < steps_of(body, in_unsafe).len() ==> (touches_at(
                #[trigger] steps_of(body, in_unsafe)[j],
                var,
            ) matches Some(ty) ==> !type_is_safe(answers, ty)),
        duplicates_soundly(steps_of(body, in_unsafe), answers),
    ensures
        unsafe_bindings(body, params, in_unsafe).contains(var),
        !variables_safe(usage_of(body, params, in_unsafe), answers),
{
    lemma_unshareable_mark_fails(body, params, answers, in_unsafe, at, var);
}

/// A body that borrows a variable from outside in an unsafe region, be it by
/// a shared reference only, is refused by `check_variables` when the
/// variable's type is neither duplicable nor both transferable and shareable.
pub proof fn lemma_unshareable_unsafe_borrow_fails(
    body: Expr,
    params: Seq<u64>,
    answers: Map<u64, TypeCapability>,
    in_unsafe: bool,
    at: int,
    var: u64,
)
    requires
        0 <= at < steps_of(body, in_unsafe).len(),
        borrows_in_unsafe(steps_of(body, in_unsafe)[at], var),
        !params.contains(var),
        forall|j: int|
            0 <= j < steps_of(body, in_unsafe).len() ==> !declares(
                #[trigger] steps_of(body, in_unsafe)[j],
                var,
            ),
        forall|j: int|
            0 <= j < steps_of(body, in_unsafe).len() ==> (touches_at(
                #[trigger] steps_of(body, in_unsafe)[j],
                var,
            ) matches Some(ty) ==> !type_is_safe(answers, ty)),
        duplicates_soundly(steps_of(body, in_unsafe), answers),
    ensures
        unsafe_bindings(body, params, in_unsafe).contains(var),
        !variables_safe(usage_of(body, params, in_unsafe), answers),
{
    lemma_unshareable_mark_fails(body, params, answers, in_unsafe, at, var);
}

/// A body that lies in an unsafe region, in an unsafe function or under an
/// unsafe block, and forms a reference to a variable from outside, be it a
/// shared one, is refused by `check_variables` when the variable's type is
/// neither duplicable nor both transferable and shareable.
pub proof fn lemma_borrow_under_unsafe_fails(
    body: Expr,
    params: Seq<u64>,
    answers: Map<u64, TypeCapability>,
    at: int,
    var: u64,
)
    requires
        0 <= at < steps_of(body, true).len(),
        steps_of(body, true)[at] matches Step::Touch(Effect::Borrow(place, _), _)
            && place.base.binding() == Some(var),
        !params.contains(var),
        forall|j: int|
            0 <= j < steps_of(body, true).len() ==> !declares(
                #[trigger] steps_of(body, true)[j],
                var,
            ),
        forall|j: int|
            0 <= j < steps_of(body, true).len() ==> (touches_at(
                #[trigger] steps_of(body, true)[j],
                var,
            ) matches Some(ty) ==> !type_is_safe(answers, ty)),
        duplicates_soundly(steps_of(body, true), answers),
    ensures
        unsafe_bindings(body, params, true).contains(var),
        !variables_safe(usage_of(body, params, true), answers),
{
    lemma_unsafe_region_covers(body);
    lemma_unshareable_unsafe_borrow_fails(body, params, answers, true, at, var);
}

} // verus!
