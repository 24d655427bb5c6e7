use mate::capability::TypeCapability;
use mate::capability::TypeOracle;
use mate::idset::IdSet;
use mate::syntax::BorrowKind;
use mate::syntax::ClosureBody;
use mate::syntax::Effect;
use mate::syntax::Expr;
use mate::syntax::ExprKind;
use mate::syntax::Place;
use mate::syntax::PlaceBase;
use mate::variable_check::analyze;
use mate::variable_check::check_closures;
use mate::variable_check::check_variables;
use mate::variable_check::MutablyUsedVariablesCtxt;

const INT: u64 = 1;
const COUNTER: u64 = 2;
const VEC: u64 = 3;
const MUT_REF: u64 = 4;

fn local(var: u64, ty: u64) -> Place {
    Place { base: PlaceBase::Local(var), base_ty: ty, base_is_mut_ref: false, node: 1000 + var }
}

fn upvar(var: u64, ty: u64) -> Place {
    Place { base: PlaceBase::Upvar(var), base_ty: ty, base_is_mut_ref: false, node: 2000 + var }
}

fn mut_ref(var: u64) -> Place {
    Place { base: PlaceBase::Upvar(var), base_ty: MUT_REF, base_is_mut_ref: true, node: 3000 + var }
}

fn touch(effect: Effect) -> Expr {
    Expr::leaf(ExprKind::Touch(effect))
}

fn block(children: Vec<Expr>) -> Expr {
    Expr::node(ExprKind::Block(false), children)
}

fn unsafe_block(children: Vec<Expr>) -> Expr {
    Expr::node(ExprKind::Block(true), children)
}

fn sorted(mut vars: Vec<u64>) -> Vec<u64> {
    vars.sort();
    vars
}

fn oracle() -> TypeOracle {
    let mut oracle = TypeOracle::new();
    oracle.record(INT, TypeCapability { duplicable: true, thread_transferable: true, thread_shareable: true });
    oracle.record(COUNTER, TypeCapability { duplicable: false, thread_transferable: false, thread_shareable: false });
    oracle.record(VEC, TypeCapability { duplicable: false, thread_transferable: true, thread_shareable: true });
    oracle
}

// for x in &data { println(x) }
#[test]
fn body_without_mutation_has_no_unsafe_variable() {
    let x = 1;
    let body = block(vec![Expr::node(ExprKind::Other, vec![touch(Effect::Copy(local(x, INT)))])]);
    assert_eq!(analyze(&body, &vec![x], false), Vec::<u64>::new());
    assert!(check_variables(&body, &vec![x], &oracle(), false));
}

// for x in &data { total += x }
#[test]
fn mutated_outer_counter_is_unsafe() {
    let (x, total) = (1, 2);
    let body = block(vec![
        touch(Effect::Copy(local(x, INT))),
        touch(Effect::Mutate(upvar(total, COUNTER))),
    ]);
    assert_eq!(analyze(&body, &vec![x], false), vec![total]);
    assert!(!check_variables(&body, &vec![x], &oracle(), false));
}

#[test]
fn mutated_outer_variable_of_a_safe_type_passes_the_check() {
    let (x, log) = (1, 2);
    let body = block(vec![touch(Effect::Borrow(upvar(log, VEC), BorrowKind::Exclusive))]);
    assert_eq!(analyze(&body, &vec![x], false), vec![log]);
    assert!(check_variables(&body, &vec![x], &oracle(), false));
}

#[test]
fn mutated_variable_of_an_unresolved_type_fails_the_check() {
    let body = block(vec![touch(Effect::Mutate(upvar(5, 99)))]);
    assert_eq!(analyze(&body, &vec![], false), vec![5]);
    assert!(!check_variables(&body, &vec![], &oracle(), false));
}

#[test]
fn mutation_through_a_projection_is_unsafe() {
    let state = 8;
    let field = Place { base: PlaceBase::Upvar(state), base_ty: COUNTER, base_is_mut_ref: false, node: 77 };
    let body = block(vec![touch(Effect::Mutate(field))]);
    assert_eq!(analyze(&body, &vec![], false), vec![state]);
}

// let a = b; a.push(..)
#[test]
fn mutation_of_a_rebinding_is_blamed_on_its_source() {
    let (a, b) = (10, 20);
    let body = block(vec![
        touch(Effect::Bind(local(a, VEC), a)),
        touch(Effect::Consume(upvar(b, VEC))),
        touch(Effect::Mutate(local(a, VEC))),
    ]);
    assert_eq!(analyze(&body, &vec![], false), vec![b]);
}

#[test]
fn rebinding_chain_is_followed_to_its_end() {
    let (a, b, c) = (10, 20, 30);
    let body = block(vec![
        touch(Effect::Bind(local(b, VEC), b)),
        touch(Effect::Consume(upvar(c, VEC))),
        touch(Effect::Bind(local(a, VEC), a)),
        touch(Effect::Consume(local(b, VEC))),
        touch(Effect::Mutate(local(a, VEC))),
    ]);
    assert_eq!(analyze(&body, &vec![], false), vec![c]);
}

// let mut acc = 0; acc += 1;
#[test]
fn local_accumulator_is_never_unsafe() {
    let acc = 4;
    let body = block(vec![
        touch(Effect::Bind(local(acc, COUNTER), acc)),
        touch(Effect::Mutate(local(acc, COUNTER))),
        touch(Effect::Borrow(local(acc, COUNTER), BorrowKind::Exclusive)),
    ]);
    assert_eq!(analyze(&body, &vec![], false), Vec::<u64>::new());
    assert!(check_variables(&body, &vec![], &oracle(), false));
}

#[test]
fn mutated_parameter_is_never_unsafe() {
    let x = 1;
    let body = block(vec![touch(Effect::Mutate(local(x, COUNTER)))]);
    assert_eq!(analyze(&body, &vec![x], false), Vec::<u64>::new());
    assert_eq!(analyze(&body, &vec![], false), vec![x]);
}

#[test]
fn duplication_wins_over_mutation() {
    let n = 6;
    let body = block(vec![
        touch(Effect::Mutate(upvar(n, INT))),
        touch(Effect::Copy(upvar(n, INT))),
    ]);
    assert_eq!(analyze(&body, &vec![], false), Vec::<u64>::new());
}

#[test]
fn shared_borrow_is_no_mutation() {
    let body = block(vec![touch(Effect::Borrow(upvar(3, COUNTER), BorrowKind::Shared))]);
    assert_eq!(analyze(&body, &vec![], false), Vec::<u64>::new());
}

#[test]
fn shared_borrow_in_an_unsafe_region_counts_as_mutation() {
    let body = block(vec![unsafe_block(vec![touch(Effect::Borrow(upvar(3, COUNTER), BorrowKind::Shared))])]);
    assert_eq!(analyze(&body, &vec![], false), vec![3]);
}

#[test]
fn unsafe_region_reaches_into_nested_blocks_and_closures() {
    let inner = Expr::node(ExprKind::Closure(vec![]), vec![block(vec![touch(Effect::Consume(upvar(3, COUNTER)))])]);
    let body = unsafe_block(vec![block(vec![inner])]);
    assert_eq!(analyze(&body, &vec![], false), vec![3]);
}

#[test]
fn unsafe_region_ends_with_its_block() {
    let body = block(vec![
        unsafe_block(vec![touch(Effect::Consume(upvar(3, COUNTER)))]),
        touch(Effect::Consume(upvar(4, COUNTER))),
    ]);
    assert_eq!(analyze(&body, &vec![], false), vec![3]);
}

#[test]
fn unique_borrow_counts_only_through_an_exclusive_reference() {
    let through = block(vec![touch(Effect::Borrow(mut_ref(5), BorrowKind::UniqueShared))]);
    assert_eq!(analyze(&through, &vec![], false), vec![5]);
    let plain = block(vec![touch(Effect::Borrow(upvar(5, VEC), BorrowKind::UniqueShared))]);
    assert_eq!(analyze(&plain, &vec![], false), Vec::<u64>::new());
}

#[test]
fn consuming_an_exclusive_reference_counts_as_mutation() {
    let body = block(vec![touch(Effect::Consume(mut_ref(5)))]);
    assert_eq!(analyze(&body, &vec![], false), vec![5]);
    let plain = block(vec![touch(Effect::Consume(upvar(5, VEC)))]);
    assert_eq!(analyze(&plain, &vec![], false), Vec::<u64>::new());
}

#[test]
fn reference_moved_into_a_closure_is_consumed_once_for_free() {
    let body = block(vec![
        touch(Effect::FakeRead(mut_ref(5), true)),
        touch(Effect::Consume(mut_ref(5))),
    ]);
    assert_eq!(analyze(&body, &vec![], false), Vec::<u64>::new());
    let twice = block(vec![
        touch(Effect::FakeRead(mut_ref(5), true)),
        touch(Effect::Consume(mut_ref(5))),
        touch(Effect::Consume(mut_ref(5))),
    ]);
    assert_eq!(analyze(&twice, &vec![], false), vec![5]);
}

#[test]
fn entering_a_closure_forgets_what_was_moved() {
    let closure = Expr::node(ExprKind::Closure(vec![]), vec![touch(Effect::Consume(mut_ref(5)))]);
    let body = block(vec![touch(Effect::FakeRead(mut_ref(5), true)), closure]);
    assert_eq!(analyze(&body, &vec![], false), vec![5]);
}

#[test]
fn entering_a_closure_forgets_the_pending_binding() {
    let (a, b) = (10, 20);
    let closure = Expr::node(ExprKind::Closure(vec![]), vec![touch(Effect::Consume(upvar(b, VEC)))]);
    let body = block(vec![
        touch(Effect::Bind(local(a, VEC), a)),
        closure,
        touch(Effect::Mutate(local(a, VEC))),
    ]);
    assert_eq!(analyze(&body, &vec![], false), Vec::<u64>::new());
}

#[test]
fn effects_inside_nested_closures_are_seen() {
    let inner = Expr::node(ExprKind::Closure(vec![9]), vec![block(vec![
        touch(Effect::Mutate(local(9, COUNTER))),
        touch(Effect::Mutate(upvar(2, COUNTER))),
    ])]);
    let outer = Expr::node(ExprKind::Closure(vec![8]), vec![block(vec![inner])]);
    assert_eq!(analyze(&block(vec![outer]), &vec![], false), vec![2]);
}

#[test]
fn bind_clears_nothing_but_is_cleared_by_a_borrow() {
    let (a, b) = (10, 20);
    let body = block(vec![
        touch(Effect::Bind(local(a, VEC), a)),
        touch(Effect::Borrow(upvar(30, VEC), BorrowKind::Shared)),
        touch(Effect::Consume(upvar(b, VEC))),
        touch(Effect::Mutate(local(a, VEC))),
    ]);
    assert_eq!(analyze(&body, &vec![], false), Vec::<u64>::new());
}

#[test]
fn touches_of_other_places_are_ignored() {
    let temp = Place { base: PlaceBase::Other, base_ty: COUNTER, base_is_mut_ref: true, node: 1 };
    let body = block(vec![
        touch(Effect::Mutate(temp)),
        touch(Effect::Consume(temp)),
        touch(Effect::Borrow(temp, BorrowKind::Exclusive)),
        touch(Effect::Copy(temp)),
        touch(Effect::FakeRead(temp, true)),
    ]);
    assert_eq!(analyze(&body, &vec![], false), Vec::<u64>::new());
}

#[test]
fn several_unsafe_variables_are_each_reported_once() {
    let body = block(vec![
        touch(Effect::Mutate(upvar(3, COUNTER))),
        touch(Effect::Mutate(upvar(4, COUNTER))),
        touch(Effect::Mutate(upvar(3, COUNTER))),
        touch(Effect::Borrow(upvar(5, VEC), BorrowKind::Exclusive)),
    ]);
    assert_eq!(sorted(analyze(&body, &vec![], false)), vec![3, 4, 5]);
}

#[test]
fn alias_that_would_close_a_cycle_is_dropped() {
    let mut ctx = MutablyUsedVariablesCtxt::new();
    ctx.add_alias(1, 2);
    ctx.add_alias(2, 3);
    ctx.add_alias(3, 1);
    ctx.add_alias(4, 4);
    ctx.add_mutably_used_var(3);
    assert!(ctx.record(3).exclusive_borrowed);
    assert!(!ctx.record(1).exclusive_borrowed);
    assert!(!ctx.record(2).exclusive_borrowed);
    ctx.add_mutably_used_var(1);
    assert!(ctx.record(1).exclusive_borrowed);
    assert!(ctx.record(2).exclusive_borrowed);
    ctx.add_mutably_used_var(4);
    assert!(ctx.record(4).exclusive_borrowed);
}

#[test]
fn record_tells_how_a_variable_was_used() {
    let mut ctx = MutablyUsedVariablesCtxt::new();
    ctx.consume(&upvar(1, VEC), false);
    ctx.borrow(&upvar(2, VEC), BorrowKind::Shared, false);
    ctx.mutate(&upvar(3, COUNTER));
    ctx.copy(&upvar(4, INT), false);
    ctx.bind(&local(5, INT), 5, false);
    let consumed = ctx.record(1);
    assert!(consumed.consumed && !consumed.shared_borrowed && !consumed.exclusive_borrowed);
    let shared = ctx.record(2);
    assert!(shared.shared_borrowed && !shared.consumed && !shared.exclusive_borrowed);
    let mutated = ctx.record(3);
    assert!(mutated.exclusive_borrowed && !mutated.duplicated && !mutated.locally_declared);
    let copied = ctx.record(4);
    assert!(copied.duplicated && !copied.exclusive_borrowed);
    let bound = ctx.record(5);
    assert!(bound.locally_declared && !bound.exclusive_borrowed);
    let untouched = ctx.record(6);
    assert!(!untouched.consumed && !untouched.shared_borrowed && !untouched.exclusive_borrowed);
    assert!(!untouched.duplicated && !untouched.locally_declared);
    assert_eq!(ctx.type_of(1), Some(VEC));
    assert_eq!(ctx.type_of(3), Some(COUNTER));
    assert_eq!(ctx.type_of(5), None);
    assert_eq!(ctx.type_of(6), None);
    assert!(ctx.is_unsafe_var(3));
    assert!(!ctx.is_unsafe_var(4));
    assert_eq!(ctx.unsafe_vars(), vec![3]);
}

#[test]
fn copy_in_an_unsafe_region_is_still_a_copy() {
    let mut ctx = MutablyUsedVariablesCtxt::new();
    ctx.copy(&upvar(4, INT), true);
    assert!(ctx.record(4).exclusive_borrowed);
    assert!(ctx.record(4).duplicated);
    assert!(!ctx.is_unsafe_var(4));
}

#[test]
fn bind_in_an_unsafe_region_marks_and_declares() {
    let mut ctx = MutablyUsedVariablesCtxt::new();
    ctx.bind(&local(5, INT), 5, true);
    assert!(ctx.record(5).exclusive_borrowed);
    assert!(ctx.record(5).locally_declared);
    assert_eq!(ctx.unsafe_vars(), Vec::<u64>::new());
}

#[test]
fn later_touch_replaces_the_type_of_a_variable() {
    let mut ctx = MutablyUsedVariablesCtxt::new();
    ctx.mutate(&upvar(3, COUNTER));
    ctx.borrow(&upvar(3, VEC), BorrowKind::Shared, false);
    assert_eq!(ctx.type_of(3), Some(VEC));
    assert!(ctx.all_safe(&oracle()));
}

#[test]
fn closures_are_walked_with_one_state() {
    let first = Expr::node(ExprKind::Closure(vec![1]), vec![touch(Effect::Mutate(upvar(7, COUNTER)))]);
    let second = Expr::node(ExprKind::Closure(vec![2]), vec![
        touch(Effect::Mutate(local(2, COUNTER))),
        touch(Effect::Mutate(upvar(8, VEC))),
    ]);
    let mut ctx = MutablyUsedVariablesCtxt::new();
    let mut checked = IdSet::default();
    let closures = vec![ClosureBody { id: 100, node: first }, ClosureBody { id: 200, node: second }];
    check_closures(&mut ctx, &mut checked, &closures, false);
    assert_eq!(sorted(ctx.unsafe_vars()), vec![7, 8]);
    assert!(ctx.record(1).locally_declared);
    assert!(ctx.record(2).locally_declared);
    assert!(!ctx.all_safe(&oracle()));
    assert!(checked.contains(&100) && checked.contains(&200));
    assert_eq!(checked.len(), 2);
}

#[test]
fn closure_that_was_walked_is_passed_over() {
    let mutating = |var: u64| Expr::node(ExprKind::Closure(vec![]), vec![touch(Effect::Mutate(upvar(var, COUNTER)))]);
    let mut ctx = MutablyUsedVariablesCtxt::new();
    let mut checked = IdSet::default();
    checked.insert(100);
    let closures = vec![
        ClosureBody { id: 100, node: mutating(7) },
        ClosureBody { id: 200, node: mutating(8) },
        ClosureBody { id: 200, node: mutating(9) },
    ];
    check_closures(&mut ctx, &mut checked, &closures, false);
    assert_eq!(ctx.unsafe_vars(), vec![8]);
    assert_eq!(checked.len(), 2);
    check_closures(&mut ctx, &mut checked, &vec![ClosureBody { id: 300, node: mutating(9) }], false);
    assert_eq!(sorted(ctx.unsafe_vars()), vec![8, 9]);
    assert!(checked.contains(&300));
}

#[test]
fn closures_take_the_region_they_lie_in() {
    let reading = Expr::node(
        ExprKind::Closure(vec![]),
        vec![touch(Effect::Borrow(upvar(7, COUNTER), BorrowKind::Shared))],
    );
    let mut ctx = MutablyUsedVariablesCtxt::new();
    let mut checked = IdSet::default();
    check_closures(&mut ctx, &mut checked, &vec![ClosureBody { id: 1, node: reading }], true);
    assert_eq!(ctx.unsafe_vars(), vec![7]);
}

// unsafe fn f() { for x in &data { println(shared) } }
#[test]
fn shared_borrow_in_an_unsafe_function_counts_as_mutation() {
    let body = block(vec![touch(Effect::Borrow(upvar(3, COUNTER), BorrowKind::Shared))]);
    assert_eq!(analyze(&body, &vec![], true), vec![3]);
    assert!(!check_variables(&body, &vec![], &oracle(), true));
    assert_eq!(analyze(&body, &vec![], false), Vec::<u64>::new());
    assert!(check_variables(&body, &vec![], &oracle(), false));
}

#[test]
fn unsafe_function_leaves_locals_and_copies_exempt() {
    let body = block(vec![
        touch(Effect::Bind(local(4, COUNTER), 4)),
        touch(Effect::Borrow(local(4, COUNTER), BorrowKind::Shared)),
        touch(Effect::Copy(upvar(5, INT))),
        touch(Effect::Borrow(upvar(6, VEC), BorrowKind::Shared)),
        touch(Effect::Borrow(local(1, COUNTER), BorrowKind::Shared)),
    ]);
    assert_eq!(analyze(&body, &vec![1], true), vec![6]);
    assert!(check_variables(&body, &vec![1], &oracle(), true));
}

#[test]
fn walk_takes_the_region_it_starts_in() {
    let body = block(vec![touch(Effect::Consume(upvar(3, COUNTER)))]);
    let mut ctx = MutablyUsedVariablesCtxt::new();
    ctx.walk(&body, true);
    assert_eq!(ctx.unsafe_vars(), vec![3]);
    let mut calm = MutablyUsedVariablesCtxt::new();
    calm.walk(&body, false);
    assert_eq!(calm.unsafe_vars(), Vec::<u64>::new());
}

#[test]
fn declared_parameters_are_local() {
    let mut ctx = MutablyUsedVariablesCtxt::new();
    ctx.declare_params(&vec![1, 2]);
    assert!(ctx.record(1).locally_declared);
    assert!(ctx.record(2).locally_declared);
    assert!(!ctx.record(3).locally_declared);
}

#[test]
fn touch_dispatches_on_the_effect() {
    let mut ctx = MutablyUsedVariablesCtxt::new();
    ctx.touch(&Effect::Mutate(upvar(3, COUNTER)), false);
    ctx.touch(&Effect::Copy(upvar(4, INT)), false);
    ctx.touch(&Effect::FakeRead(upvar(5, VEC), false), false);
    assert!(ctx.record(3).exclusive_borrowed);
    assert!(ctx.record(4).duplicated);
    assert_eq!(ctx.type_of(5), Some(VEC));
}

#[test]
fn fake_read_of_a_local_is_ignored() {
    let mut ctx = MutablyUsedVariablesCtxt::new();
    ctx.fake_read(&local(5, VEC), true);
    assert_eq!(ctx.type_of(5), None);
    ctx.consume(&Place { base: PlaceBase::Local(5), base_ty: MUT_REF, base_is_mut_ref: true, node: 1 }, false);
    assert!(ctx.record(5).exclusive_borrowed);
}

#[test]
fn fake_read_into_a_closure_makes_the_node_a_rebinding() {
    let mut ctx = MutablyUsedVariablesCtxt::new();
    let place = Place { base: PlaceBase::Upvar(5), base_ty: VEC, base_is_mut_ref: false, node: 50 };
    ctx.fake_read(&place, true);
    ctx.add_mutably_used_var(50);
    assert!(ctx.record(50).exclusive_borrowed);
    assert!(ctx.record(5).exclusive_borrowed);
}
