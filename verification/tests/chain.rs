use mate::adapters::AllowedAdapterSet;
use mate::adapters::EntryPoint;
use mate::capability::TypeCapability;
use mate::capability::TypeOracle;
use mate::chain::check_call;
use mate::chain::check_closure;
use mate::chain::check_expr;
use mate::chain::Suggestion;
use mate::chain::collect_append_targets;
use mate::chain::evaluate;
use mate::chain::find_append_target;
use mate::chain::is_append;
use mate::chain::AdapterCall;
use mate::chain::Candidate;
use mate::chain::RewriteSpan;
use mate::chain::Span;
use mate::syntax::BorrowKind;
use mate::syntax::Effect;
use mate::syntax::Expr;
use mate::syntax::ExprKind;
use mate::syntax::Place;
use mate::syntax::PlaceBase;

const INT: u64 = 1;
const COUNTER: u64 = 2;
const VEC: u64 = 3;

fn local(var: u64, ty: u64) -> Place {
    Place { base: PlaceBase::Local(var), base_ty: ty, base_is_mut_ref: false, node: 1000 + var }
}

fn upvar(var: u64, ty: u64) -> Place {
    Place { base: PlaceBase::Upvar(var), base_ty: ty, base_is_mut_ref: false, node: 2000 + var }
}

fn touch(effect: Effect) -> Expr {
    Expr::leaf(ExprKind::Touch(effect))
}

fn block(children: Vec<Expr>) -> Expr {
    Expr::node(ExprKind::Block(false), children)
}

fn closure(params: Vec<u64>, body: Vec<Expr>) -> Expr {
    Expr::node(ExprKind::Closure(params), vec![block(body)])
}

fn call(name: &str, args: Vec<Expr>, hi: usize) -> AdapterCall {
    AdapterCall { name: name.to_string(), args, span: Span { lo: 0, hi }, observed_as_container: false }
}

fn candidate(method: &str, hi: usize, chain: Vec<AdapterCall>) -> Candidate {
    Candidate {
        method: method.to_string(),
        has_parallel_counterpart: true,
        span: Span { lo: 0, hi },
        observed_as_container: false,
        in_unsafe_region: false,
        chain,
    }
}

fn allowed() -> AllowedAdapterSet {
    let names = ["map", "filter", "enumerate", "take", "skip", "zip", "fold", "for_each", "collect"];
    AllowedAdapterSet::new(names.iter().map(|n| n.to_string()).collect())
}

fn oracle() -> TypeOracle {
    let mut oracle = TypeOracle::new();
    oracle.record(INT, TypeCapability { duplicable: true, thread_transferable: true, thread_shareable: true });
    oracle.record(COUNTER, TypeCapability { duplicable: false, thread_transferable: false, thread_shareable: false });
    oracle.record(VEC, TypeCapability { duplicable: false, thread_transferable: true, thread_shareable: true });
    oracle
}

// |x| println(x)
fn printing(x: u64) -> Expr {
    closure(vec![x], vec![Expr::node(ExprKind::Other, vec![touch(Effect::Copy(local(x, INT)))])])
}

// |x| total += x
fn counting(x: u64, total: u64) -> Expr {
    closure(vec![x], vec![touch(Effect::Copy(local(x, INT))), touch(Effect::Mutate(upvar(total, COUNTER)))])
}

// |x| { let y = x * 2; log.push(y) }
fn logging(x: u64, y: u64, log: u64) -> Expr {
    closure(
        vec![x],
        vec![
            touch(Effect::Bind(local(y, INT), y)),
            touch(Effect::Copy(local(x, INT))),
            Expr::node(
                ExprKind::MethodCall("push".to_string()),
                vec![
                    touch(Effect::Borrow(upvar(log, VEC), BorrowKind::Exclusive)),
                    touch(Effect::Copy(local(y, INT))),
                ],
            ),
        ],
    )
}

// data.iter().for_each(|x| println(x))
#[test]
fn harmless_chain_is_rewritten_in_full() {
    let c = candidate("iter", 11, vec![call("for_each", vec![printing(1)], 40)]);
    let found = evaluate(&c, &allowed(), &oracle());
    assert_eq!(
        found,
        Some(RewriteSpan { span: Span { lo: 0, hi: 40 }, calls: 1, entry: EntryPoint::Iter })
    );
}

// data.iter().for_each(|x| total += x)
#[test]
fn closure_that_mutates_a_shared_counter_rejects_the_candidate() {
    let c = candidate("iter", 11, vec![call("for_each", vec![counting(1, 2)], 40)]);
    assert_eq!(evaluate(&c, &allowed(), &oracle()), None);
}

// data.iter().for_each(|x| { let y = x * 2; log.push(y) })
#[test]
fn closure_that_appends_to_an_outer_container_rejects_the_candidate() {
    let c = candidate("iter", 11, vec![call("for_each", vec![logging(1, 2, 3)], 60)]);
    assert_eq!(evaluate(&c, &allowed(), &oracle()), None);
    assert!(!check_closure(&logging(1, 2, 3), &oracle(), false));
}

// source.map(f).custom_non_adapter().filter(g)
#[test]
fn chain_stops_before_a_call_that_is_no_adapter() {
    let c = candidate(
        "into_iter",
        18,
        vec![
            call("map", vec![printing(1)], 25),
            call("custom_non_adapter", vec![], 46),
            call("filter", vec![printing(2)], 56),
        ],
    );
    let found = evaluate(&c, &allowed(), &oracle());
    assert_eq!(
        found,
        Some(RewriteSpan { span: Span { lo: 0, hi: 25 }, calls: 1, entry: EntryPoint::IntoIter })
    );
}

// v.iter().enumerate().cycle().take(5).for_each(..)
#[test]
fn chain_stops_before_cycle() {
    let c = candidate(
        "iter",
        8,
        vec![
            call("enumerate", vec![], 20),
            call("cycle", vec![], 28),
            call("take", vec![], 36),
            call("for_each", vec![printing(1)], 60),
        ],
    );
    let found = evaluate(&c, &allowed(), &oracle());
    assert_eq!(
        found,
        Some(RewriteSpan { span: Span { lo: 0, hi: 20 }, calls: 1, entry: EntryPoint::Iter })
    );
}

#[test]
fn candidate_alone_is_accepted_when_the_first_call_is_no_adapter() {
    let c = candidate("iter_mut", 9, vec![call("cycle", vec![], 17), call("map", vec![counting(1, 2)], 30)]);
    let found = evaluate(&c, &allowed(), &oracle());
    assert_eq!(
        found,
        Some(RewriteSpan { span: Span { lo: 0, hi: 9 }, calls: 0, entry: EntryPoint::IterMut })
    );
}

#[test]
fn candidate_without_calls_is_accepted() {
    let c = candidate("iter", 9, vec![]);
    let found = evaluate(&c, &allowed(), &oracle());
    assert_eq!(found, Some(RewriteSpan { span: Span { lo: 0, hi: 9 }, calls: 0, entry: EntryPoint::Iter }));
}

#[test]
fn second_entry_point_ends_the_chain() {
    let c = candidate(
        "iter",
        8,
        vec![
            call("filter", vec![printing(1)], 20),
            call("collect", vec![], 30),
            call("into_iter", vec![], 42),
            call("map", vec![counting(2, 3)], 60),
        ],
    );
    let found = evaluate(&c, &allowed(), &oracle());
    assert_eq!(
        found,
        Some(RewriteSpan { span: Span { lo: 0, hi: 30 }, calls: 2, entry: EntryPoint::Iter })
    );
}

#[test]
fn unsafe_closure_behind_the_end_of_the_chain_is_not_looked_at() {
    let c = candidate(
        "iter",
        8,
        vec![call("map", vec![printing(1)], 20), call("cycle", vec![], 28), call("for_each", vec![counting(2, 3)], 50)],
    );
    let found = evaluate(&c, &allowed(), &oracle());
    assert_eq!(
        found,
        Some(RewriteSpan { span: Span { lo: 0, hi: 20 }, calls: 1, entry: EntryPoint::Iter })
    );
}

#[test]
fn one_unsafe_closure_anywhere_rejects_the_candidate() {
    let c = candidate(
        "iter",
        8,
        vec![
            call("map", vec![printing(1)], 20),
            call("filter", vec![counting(2, 3)], 30),
            call("for_each", vec![printing(4)], 50),
        ],
    );
    assert_eq!(evaluate(&c, &allowed(), &oracle()), None);
}

#[test]
fn closure_with_a_nested_loop_rejects_the_candidate() {
    let looping = closure(vec![1], vec![Expr::node(ExprKind::Loop, vec![])]);
    let c = candidate("iter", 8, vec![call("for_each", vec![looping], 50)]);
    assert_eq!(evaluate(&c, &allowed(), &oracle()), None);
}

#[test]
fn source_without_a_parallel_counterpart_is_rejected() {
    let mut c = candidate("iter", 11, vec![call("for_each", vec![printing(1)], 40)]);
    c.has_parallel_counterpart = false;
    assert_eq!(evaluate(&c, &allowed(), &oracle()), None);
}

#[test]
fn method_that_starts_no_traversal_is_rejected() {
    let c = candidate("chars", 11, vec![call("for_each", vec![printing(1)], 40)]);
    assert_eq!(evaluate(&c, &allowed(), &oracle()), None);
}

#[test]
fn observed_result_is_rejected() {
    let mut last = call("map", vec![printing(1)], 40);
    last.observed_as_container = true;
    let c = candidate("iter", 11, vec![last]);
    assert_eq!(evaluate(&c, &allowed(), &oracle()), None);
    let mut alone = candidate("into_iter", 11, vec![]);
    alone.observed_as_container = true;
    assert_eq!(evaluate(&alone, &allowed(), &oracle()), None);
}

#[test]
fn observation_counts_only_at_the_end_of_what_is_taken() {
    let mut first = call("map", vec![printing(1)], 20);
    first.observed_as_container = true;
    let mut c = candidate("iter", 11, vec![first, call("for_each", vec![printing(2)], 40)]);
    c.observed_as_container = true;
    let found = evaluate(&c, &allowed(), &oracle());
    assert_eq!(
        found,
        Some(RewriteSpan { span: Span { lo: 0, hi: 40 }, calls: 2, entry: EntryPoint::Iter })
    );
}

#[test]
fn arguments_that_are_no_closures_pass() {
    let plain = call("take", vec![touch(Effect::Mutate(upvar(2, COUNTER)))], 20);
    assert!(check_call(&plain, &oracle(), false));
    assert!(check_call(&call("for_each", vec![printing(1)], 20), &oracle(), false));
    assert!(!check_call(&call("for_each", vec![printing(1), counting(1, 2)], 20), &oracle(), false));
}

#[test]
fn append_to_a_local_container_passes() {
    let (x, out) = (1, 2);
    let body = closure(
        vec![x],
        vec![
            touch(Effect::Bind(local(out, VEC), out)),
            Expr::node(
                ExprKind::MethodCall("push".to_string()),
                vec![touch(Effect::Borrow(local(out, VEC), BorrowKind::Exclusive)), touch(Effect::Copy(local(x, INT)))],
            ),
        ],
    );
    assert!(check_closure(&body, &oracle(), false));
}

#[test]
fn exclusive_use_that_is_no_append_passes_for_a_safe_type() {
    let body = closure(
        vec![1],
        vec![Expr::node(
            ExprKind::MethodCall("clear".to_string()),
            vec![touch(Effect::Borrow(upvar(3, VEC), BorrowKind::Exclusive))],
        )],
    );
    assert!(check_closure(&body, &oracle(), false));
}

#[test]
fn append_names_are_a_closed_set() {
    for name in ["push", "push_back", "push_front", "insert", "extend"] {
        assert!(is_append(name));
    }
    for name in ["pop", "Push", "push ", "", "len", "append"] {
        assert!(!is_append(name));
    }
}

#[test]
fn append_target_is_the_variable_of_the_receiver() {
    let push = Expr::node(
        ExprKind::MethodCall("push_back".to_string()),
        vec![touch(Effect::Borrow(upvar(3, VEC), BorrowKind::Exclusive)), touch(Effect::Copy(local(1, INT)))],
    );
    assert_eq!(find_append_target(&push), Some(3));
    let shared = Expr::node(
        ExprKind::MethodCall("push".to_string()),
        vec![touch(Effect::Borrow(upvar(3, VEC), BorrowKind::Shared))],
    );
    assert_eq!(find_append_target(&shared), None);
    let other = Expr::node(
        ExprKind::MethodCall("len".to_string()),
        vec![touch(Effect::Borrow(upvar(3, VEC), BorrowKind::Exclusive))],
    );
    assert_eq!(find_append_target(&other), None);
    assert_eq!(find_append_target(&Expr::leaf(ExprKind::MethodCall("push".to_string()))), None);
    assert_eq!(find_append_target(&block(vec![push])), None);
}

#[test]
fn append_targets_are_collected_in_walk_order() {
    let push = |var: u64| {
        Expr::node(
            ExprKind::MethodCall("push".to_string()),
            vec![touch(Effect::Borrow(upvar(var, VEC), BorrowKind::Exclusive))],
        )
    };
    let body = block(vec![push(5), block(vec![push(3), Expr::node(ExprKind::Other, vec![push(9)])]), push(5)]);
    let mut out = vec![1];
    collect_append_targets(&body, &mut out);
    assert_eq!(out, vec![1, 5, 3, 9, 5]);
}

// |x| println(shared)
fn reading(x: u64, shared: u64) -> Expr {
    closure(vec![x], vec![touch(Effect::Borrow(upvar(shared, COUNTER), BorrowKind::Shared))])
}

#[test]
fn unsafe_region_turns_every_touch_into_a_mutation() {
    let mut c = candidate("iter", 11, vec![call("for_each", vec![reading(1, 2)], 40)]);
    assert!(evaluate(&c, &allowed(), &oracle()).is_some());
    c.in_unsafe_region = true;
    assert_eq!(evaluate(&c, &allowed(), &oracle()), None);
    assert!(check_closure(&reading(1, 2), &oracle(), false));
    assert!(!check_closure(&reading(1, 2), &oracle(), true));
}

#[test]
fn accepted_candidate_is_offered_its_rewrite() {
    let c = candidate("iter", 11, vec![call("for_each", vec![printing(1)], 40)]);
    let found: Option<Suggestion> = check_expr(&c, &allowed(), &oracle(), "data.iter()");
    let offered = found.unwrap();
    assert_eq!(offered.span, Span { lo: 0, hi: 11 });
    assert_eq!(offered.replacement, "data.par_iter()");
    assert_eq!(offered.accepted, RewriteSpan { span: Span { lo: 0, hi: 40 }, calls: 1, entry: EntryPoint::Iter });
}

#[test]
fn rejected_candidate_is_offered_nothing() {
    let c = candidate("iter", 11, vec![call("for_each", vec![counting(1, 2)], 40)]);
    assert!(check_expr(&c, &allowed(), &oracle(), "data.iter()").is_none());
    let unknown = candidate("drain", 11, vec![]);
    assert!(check_expr(&unknown, &allowed(), &oracle(), "data.drain()").is_none());
}

#[test]
fn returned_traversal_is_rejected() {
    let c = mate::samples::iter_returned_candidate(Span { lo: 4, hi: 24 });
    assert_eq!(c.method, "into_iter");
    assert_eq!(c.span, Span { lo: 4, hi: 24 });
    assert!(c.chain.is_empty());
    assert_eq!(evaluate(&c, &allowed(), &oracle()), None);
}

#[test]
fn traversal_handed_on_to_a_function_is_rejected() {
    mate::samples::iter_returned_not_top_level();
    let c = mate::samples::iter_returned_not_top_level_candidate(Span { lo: 30, hi: 66 }, 75);
    assert_eq!(c.method, "iter");
    assert_eq!(c.chain.len(), 1);
    assert_eq!(c.chain[0].name, "copied");
    assert_eq!(c.chain[0].span, Span { lo: 30, hi: 75 });
    let with_copied = AllowedAdapterSet::new(vec!["copied".to_string(), "map".to_string()]);
    assert_eq!(evaluate(&c, &with_copied, &oracle()), None);
}

#[test]
fn decoded_item_hands_on_its_character() {
    assert_eq!(mate::samples::decoded_char(Some(Some('x'))), Some('x'));
    assert_eq!(mate::samples::decoded_char(Some(None)), None);
    assert_eq!(mate::samples::decoded_char(None), None);
}
