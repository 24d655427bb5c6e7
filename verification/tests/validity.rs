use mate::syntax::BorrowKind;
use mate::syntax::Effect;
use mate::syntax::Expr;
use mate::syntax::ExprKind;
use mate::syntax::Place;
use mate::syntax::PlaceBase;
use mate::syntax::ReturnFacts;
use mate::syntax::ReturnShape;
use mate::validity::exit_of_kind;
use mate::validity::is_convertible;
use mate::validity::join_exits;
use mate::validity::Exit;
use mate::validity::Validator;
use mate::validity::is_kind_allowed;
use mate::validity::is_return_allowed;

fn read(var: u64) -> Expr {
    let place = Place { base: PlaceBase::Local(var), base_ty: 1, base_is_mut_ref: false, node: 100 + var };
    Expr::leaf(ExprKind::Touch(Effect::Borrow(place, BorrowKind::Shared)))
}

fn block(children: Vec<Expr>) -> Expr {
    Expr::node(ExprKind::Block(false), children)
}

fn facts(shape: ReturnShape) -> ReturnFacts {
    ReturnFacts {
        short_circuits: true,
        shape,
        is_option: false,
        is_none: false,
        is_result: false,
        is_err: false,
        is_from_residual: false,
    }
}

#[test]
fn empty_block_is_convertible() {
    let found = is_convertible(&block(vec![]));
    assert!(found.valid);
    assert!(!found.has_unlabeled_continue);
}

#[test]
fn plain_body_is_convertible() {
    let body = block(vec![read(1), Expr::node(ExprKind::Other, vec![read(2), read(3)])]);
    let found = is_convertible(&body);
    assert!(found.valid);
    assert!(!found.has_unlabeled_continue);
}

#[test]
fn nested_loop_is_rejected() {
    let body = block(vec![read(1), Expr::node(ExprKind::Loop, vec![read(2)])]);
    assert!(!is_convertible(&body).valid);
}

#[test]
fn nested_closure_is_rejected() {
    let body = block(vec![Expr::node(ExprKind::Closure(vec![7]), vec![read(7)])]);
    assert!(!is_convertible(&body).valid);
}

#[test]
fn unlabeled_break_is_rejected() {
    let body = block(vec![Expr::leaf(ExprKind::Break(false))]);
    assert!(!is_convertible(&body).valid);
}

#[test]
fn labeled_break_is_rejected() {
    let body = block(vec![Expr::leaf(ExprKind::Break(true))]);
    assert!(!is_convertible(&body).valid);
}

#[test]
fn labeled_continue_is_rejected() {
    let body = block(vec![Expr::leaf(ExprKind::Continue(true))]);
    let found = is_convertible(&body);
    assert!(!found.valid);
    assert!(!found.has_unlabeled_continue);
}

#[test]
fn suspension_point_is_rejected() {
    let body = block(vec![Expr::node(ExprKind::Await, vec![read(1)])]);
    assert!(!is_convertible(&body).valid);
}

#[test]
fn unlabeled_continue_is_recorded() {
    let body = block(vec![read(1), Expr::leaf(ExprKind::Continue(false)), read(2)]);
    let found = is_convertible(&body);
    assert!(found.valid);
    assert!(found.has_unlabeled_continue);
}

#[test]
fn continue_deep_in_the_body_is_recorded() {
    let inner = Expr::node(ExprKind::Other, vec![block(vec![Expr::leaf(ExprKind::Continue(false))])]);
    let found = is_convertible(&block(vec![read(1), inner]));
    assert!(found.valid);
    assert!(found.has_unlabeled_continue);
}

#[test]
fn continue_is_not_reported_for_a_rejected_body() {
    let body = block(vec![Expr::leaf(ExprKind::Continue(false)), Expr::leaf(ExprKind::Break(false))]);
    let found = is_convertible(&body);
    assert!(!found.valid);
    assert!(!found.has_unlabeled_continue);
}

#[test]
fn forbidden_construct_deep_in_the_body_is_found() {
    let deep = Expr::node(
        ExprKind::MethodCall("map".to_string()),
        vec![read(1), block(vec![Expr::node(ExprKind::Other, vec![Expr::leaf(ExprKind::Loop)])])],
    );
    assert!(!is_convertible(&block(vec![read(2), deep])).valid);
}

#[test]
fn return_without_value_is_allowed() {
    assert!(is_return_allowed(&None));
    let body = block(vec![Expr::leaf(ExprKind::Return(None))]);
    assert!(is_convertible(&body).valid);
}

#[test]
fn return_of_none_is_allowed() {
    let mut f = facts(ReturnShape::Path);
    f.is_option = true;
    f.is_none = true;
    assert!(is_return_allowed(&Some(f)));
    let body = block(vec![Expr::leaf(ExprKind::Return(Some(f)))]);
    assert!(is_convertible(&body).valid);
}

#[test]
fn return_of_a_path_that_is_not_none_is_rejected() {
    let mut f = facts(ReturnShape::Path);
    f.is_option = true;
    assert!(!is_return_allowed(&Some(f)));
    let mut g = facts(ReturnShape::Path);
    g.is_none = true;
    assert!(!is_return_allowed(&Some(g)));
}

#[test]
fn return_of_err_is_allowed() {
    let mut f = facts(ReturnShape::PathCall);
    f.is_result = true;
    f.is_err = true;
    assert!(is_return_allowed(&Some(f)));
    let body = block(vec![Expr::node(ExprKind::Return(Some(f)), vec![read(1)])]);
    assert!(is_convertible(&body).valid);
}

#[test]
fn return_of_a_passed_through_failure_is_allowed() {
    let mut f = facts(ReturnShape::PathCall);
    f.is_from_residual = true;
    assert!(is_return_allowed(&Some(f)));
}

#[test]
fn return_of_ok_is_rejected() {
    let mut f = facts(ReturnShape::PathCall);
    f.is_result = true;
    assert!(!is_return_allowed(&Some(f)));
    let body = block(vec![Expr::node(ExprKind::Return(Some(f)), vec![read(1)])]);
    assert!(!is_convertible(&body).valid);
}

#[test]
fn return_of_err_on_another_type_is_rejected() {
    let mut f = facts(ReturnShape::PathCall);
    f.is_err = true;
    assert!(!is_return_allowed(&Some(f)));
}

#[test]
fn return_of_any_other_expression_is_rejected() {
    let mut f = facts(ReturnShape::Other);
    f.is_option = true;
    f.is_none = true;
    f.is_result = true;
    f.is_err = true;
    f.is_from_residual = true;
    assert!(!is_return_allowed(&Some(f)));
}

#[test]
fn return_of_a_value_that_does_not_short_circuit_is_rejected() {
    let mut f = facts(ReturnShape::Path);
    f.short_circuits = false;
    f.is_option = true;
    f.is_none = true;
    assert!(!is_return_allowed(&Some(f)));
}

#[test]
fn closure_inside_a_returned_value_is_rejected() {
    let mut f = facts(ReturnShape::PathCall);
    f.is_result = true;
    f.is_err = true;
    let value = Expr::node(ExprKind::Closure(vec![]), vec![read(1)]);
    let body = block(vec![Expr::node(ExprKind::Return(Some(f)), vec![value])]);
    assert!(!is_convertible(&body).valid);
}

#[test]
fn kinds_are_judged_one_by_one() {
    assert!(!is_kind_allowed(&ExprKind::Loop));
    assert!(!is_kind_allowed(&ExprKind::Closure(vec![])));
    assert!(!is_kind_allowed(&ExprKind::Break(false)));
    assert!(!is_kind_allowed(&ExprKind::Break(true)));
    assert!(!is_kind_allowed(&ExprKind::Await));
    assert!(!is_kind_allowed(&ExprKind::Continue(true)));
    assert!(is_kind_allowed(&ExprKind::Continue(false)));
    assert!(is_kind_allowed(&ExprKind::Return(None)));
    assert!(is_kind_allowed(&ExprKind::Block(true)));
    assert!(is_kind_allowed(&ExprKind::Other));
    assert!(is_kind_allowed(&ExprKind::MethodCall("push".to_string())));
}

#[test]
fn body_without_return_stays() {
    assert_eq!(is_convertible(&block(vec![read(1)])).exit, Exit::Stays);
}

#[test]
fn bare_return_is_reported() {
    let body = block(vec![read(1), block(vec![Expr::leaf(ExprKind::Return(None))])]);
    let found = is_convertible(&body);
    assert!(found.valid);
    assert_eq!(found.exit, Exit::Bare);
}

#[test]
fn failure_return_is_reported_by_its_type() {
    let mut none = facts(ReturnShape::Path);
    none.is_option = true;
    none.is_none = true;
    assert_eq!(is_convertible(&block(vec![Expr::leaf(ExprKind::Return(Some(none)))])).exit, Exit::Option);
    let mut err = facts(ReturnShape::PathCall);
    err.is_result = true;
    err.is_err = true;
    assert_eq!(is_convertible(&block(vec![Expr::leaf(ExprKind::Return(Some(err)))])).exit, Exit::Result);
    let mut through = facts(ReturnShape::PathCall);
    through.is_from_residual = true;
    assert_eq!(is_convertible(&block(vec![Expr::leaf(ExprKind::Return(Some(through)))])).exit, Exit::Other);
    let mixed = block(vec![Expr::leaf(ExprKind::Return(Some(none))), Expr::leaf(ExprKind::Return(Some(err)))]);
    assert_eq!(is_convertible(&mixed).exit, Exit::Other);
    let same = block(vec![Expr::leaf(ExprKind::Return(Some(err))), read(1), Expr::leaf(ExprKind::Return(Some(err)))]);
    assert_eq!(is_convertible(&same).exit, Exit::Result);
}

#[test]
fn exit_is_not_reported_for_a_rejected_body() {
    let body = block(vec![Expr::leaf(ExprKind::Return(None)), Expr::leaf(ExprKind::Loop)]);
    let found = is_convertible(&body);
    assert!(!found.valid);
    assert_eq!(found.exit, Exit::Stays);
}

#[test]
fn exits_are_joined() {
    let all = [Exit::Stays, Exit::Bare, Exit::Option, Exit::Result, Exit::Other];
    for a in all {
        assert_eq!(join_exits(Exit::Stays, a), a);
        assert_eq!(join_exits(a, Exit::Stays), a);
        assert_eq!(join_exits(a, a), a);
        for b in all {
            if a != b && a != Exit::Stays && b != Exit::Stays {
                assert_eq!(join_exits(a, b), Exit::Other);
            }
        }
    }
    assert_eq!(exit_of_kind(&ExprKind::Return(None)), Exit::Bare);
    assert_eq!(exit_of_kind(&ExprKind::Loop), Exit::Stays);
    assert_eq!(exit_of_kind(&ExprKind::Continue(false)), Exit::Stays);
}

#[test]
fn validator_rejects_a_nested_loop() {
    let mut v = Validator::new();
    assert!(v.is_valid);
    v.visit_expr(&block(vec![read(1), block(vec![Expr::node(ExprKind::Loop, vec![read(2)])])]));
    assert!(!v.is_valid);
}

#[test]
fn validator_rejects_a_nested_closure() {
    let mut v = Validator::new();
    v.visit_expr(&block(vec![Expr::node(ExprKind::Closure(vec![]), vec![])]));
    assert!(!v.is_valid);
}

// { if a == 1 { break; } dbg!(a); }
#[test]
fn validator_rejects_an_unlabeled_break() {
    let body = block(vec![
        Expr::node(ExprKind::Other, vec![read(1), block(vec![Expr::leaf(ExprKind::Break(false))])]),
        Expr::node(ExprKind::Other, vec![read(1)]),
    ]);
    let mut v = Validator::new();
    v.visit_expr(&body);
    assert!(!v.is_valid);
}

#[test]
fn validator_rejects_a_labeled_continue() {
    let mut v = Validator::new();
    v.visit_expr(&block(vec![Expr::leaf(ExprKind::Continue(true))]));
    assert!(!v.is_valid);
    assert!(!v.has_continue);
}

#[test]
fn validator_keeps_what_it_found() {
    let mut v = Validator::new();
    v.visit_expr(&block(vec![Expr::leaf(ExprKind::Continue(false))]));
    assert!(v.is_valid && v.has_continue);
    assert_eq!(v.exit, Exit::Stays);
    v.visit_expr(&block(vec![Expr::leaf(ExprKind::Return(None))]));
    assert!(v.is_valid && v.has_continue);
    assert_eq!(v.exit, Exit::Bare);
    v.visit_expr(&Expr::leaf(ExprKind::Await));
    assert!(!v.is_valid && v.has_continue);
    assert_eq!(v.exit, Exit::Bare);
    v.visit_expr(&read(1));
    assert!(!v.is_valid);
    v.visit_expr(&block(vec![Expr::leaf(ExprKind::Continue(false))]));
    assert!(!v.is_valid && v.has_continue);
    assert_eq!(v.exit, Exit::Bare);
}
