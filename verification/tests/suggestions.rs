use mate::adapters::generate_suggestion;
use mate::adapters::IterExplorer;
use mate::fold::identity;
use mate::fold::monoid;
use mate::fold::AccumulatorType;
use mate::fold::BinOpKind;
use mate::fold::MonoidType;
use mate::rayon_import::check_mod;
use mate::rayon_import::deprecated_replacement;
use mate::rayon_import::ends_with_text;
use mate::rules::is_missing_debug;
use mate::rules::DebugFacts;
use mate::rules::ItemKind;
use mate::rayon_import::has_prelude_import;
use mate::rayon_import::import_suggestion;
use mate::rayon_import::is_prelude_import;
use mate::rayon_import::UseItem;
use mate::syntax::Expr;
use mate::syntax::ExprKind;
use mate::text::join;
use mate::text::last_char;
use mate::syntax::Effect;
use mate::syntax::Place;
use mate::syntax::PlaceBase;
use mate::to_iter::check_expr;
use mate::to_iter::constructor;
use mate::to_iter::is_range_expr;
use mate::syntax::ReturnFacts;
use mate::syntax::ReturnShape;
use mate::to_iter::mut_binding;
use mate::to_iter::needs_mut_binding;
use mate::to_iter::try_kind;
use mate::validity::Exit;
use mate::to_iter::suggestion;
use mate::to_iter::terminate;
use mate::to_iter::terminated;
use mate::to_iter::traversal_snippet;
use mate::to_iter::ArgShape;
use mate::to_iter::LangItem;
use mate::to_iter::LoopSnippets;
use mate::to_iter::TryKind;

fn call(name: &str, children: Vec<Expr>) -> Expr {
    Expr::node(ExprKind::MethodCall(name.to_string()), children)
}

#[test]
fn sequential_entry_point_is_renamed_in_the_text() {
    assert_eq!(
        generate_suggestion("into_iter", "(0..100).into_iter()"),
        Some("(0..100).into_par_iter()".to_string())
    );
    assert_eq!(generate_suggestion("iter", "numbers.iter()"), Some("numbers.par_iter()".to_string()));
    assert_eq!(
        generate_suggestion("iter_mut", "numbers.iter_mut()"),
        Some("numbers.par_iter_mut()".to_string())
    );
}

#[test]
fn entry_point_is_renamed_wherever_the_text_holds_it() {
    assert_eq!(generate_suggestion("iter", "iters.iter()"), Some("par_iters.par_iter()".to_string()));
    assert_eq!(generate_suggestion("iter", "v.len()"), Some("v.len()".to_string()));
}

#[test]
fn other_methods_get_no_suggestion() {
    assert_eq!(generate_suggestion("map", "v.map(f)"), None);
    assert_eq!(generate_suggestion("", "v.iter()"), None);
    assert_eq!(generate_suggestion("par_iter", "v.par_iter()"), None);
}

#[test]
fn deprecated_methods_are_renamed() {
    assert_eq!(
        deprecated_replacement("find", "v.par_iter().find(|x| x > 1)"),
        Some("v.par_iter().find_first(|x| x > 1)".to_string())
    );
    assert_eq!(
        deprecated_replacement("position", "v.par_iter().position(|x| x > 1)"),
        Some("v.par_iter().position_first(|x| x > 1)".to_string())
    );
    assert_eq!(
        deprecated_replacement("find", "a.find(b.find(c))"),
        Some("a.find_first(b.find_first(c))".to_string())
    );
    assert_eq!(deprecated_replacement("find", "v.find_any(f)"), Some("v.find_any(f)".to_string()));
    assert_eq!(deprecated_replacement("map", "v.find(f)"), None);
}

#[test]
fn explorer_finds_the_start_of_a_traversal() {
    let source = Expr::leaf(ExprKind::Other);
    let mut explorer = IterExplorer::new();
    explorer.visit_expr(&call("map", vec![call("iter", vec![source])]));
    assert!(explorer.is_iter);
    assert_eq!(explorer.to_snip(), "");
}

#[test]
fn explorer_follows_receivers_only() {
    let hidden = call("map", vec![Expr::leaf(ExprKind::Other), call("iter", vec![])]);
    let mut explorer = IterExplorer::new();
    explorer.visit_expr(&hidden);
    assert!(!explorer.is_iter);
    assert_eq!(explorer.to_snip(), ".into_iter()");
    let wrapped = Expr::node(ExprKind::Other, vec![call("iter", vec![])]);
    explorer.visit_expr(&wrapped);
    assert!(!explorer.is_iter);
    explorer.visit_expr(&call("iter_mut", vec![]));
    assert!(explorer.is_iter);
    explorer.visit_expr(&Expr::leaf(ExprKind::Other));
    assert!(explorer.is_iter);
}

#[test]
fn operators_fall_into_two_monoids() {
    for op in [BinOpKind::Add, BinOpKind::Sub, BinOpKind::BitXor, BinOpKind::BitOr] {
        assert_eq!(monoid(op), Some(MonoidType::Add));
        assert_eq!(identity(op, AccumulatorType::Integral), Some("0"));
        assert_eq!(identity(op, AccumulatorType::Bool), Some("false"));
        assert_eq!(identity(op, AccumulatorType::Other), None);
    }
    for op in [BinOpKind::Mul, BinOpKind::BitAnd] {
        assert_eq!(monoid(op), Some(MonoidType::Mul));
        assert_eq!(identity(op, AccumulatorType::Integral), Some("1"));
        assert_eq!(identity(op, AccumulatorType::Bool), Some("true"));
        assert_eq!(identity(op, AccumulatorType::Other), None);
    }
    for op in [BinOpKind::Div, BinOpKind::Rem, BinOpKind::Shl, BinOpKind::Shr] {
        assert_eq!(monoid(op), None);
        assert_eq!(identity(op, AccumulatorType::Integral), None);
        assert_eq!(identity(op, AccumulatorType::Bool), None);
    }
}

fn use_item(path: &[&str], glob: bool) -> UseItem {
    UseItem { segments: path.iter().map(|s| s.to_string()).collect(), glob }
}

#[test]
fn prelude_import_is_recognised() {
    assert!(is_prelude_import(&use_item(&["rayon", "prelude"], true)));
    assert!(!is_prelude_import(&use_item(&["rayon", "prelude"], false)));
    assert!(!is_prelude_import(&use_item(&["rayon", "iter"], true)));
    assert!(!is_prelude_import(&use_item(&["rayon"], true)));
    assert!(!is_prelude_import(&use_item(&["rayon", "prelude", "x"], true)));
    assert!(!is_prelude_import(&use_item(&["crate", "prelude"], true)));
    assert!(!is_prelude_import(&use_item(&[], true)));
}

#[test]
fn prelude_import_is_looked_for_among_all_items() {
    assert!(!has_prelude_import(&vec![]));
    assert!(!has_prelude_import(&vec![use_item(&["std", "fmt"], false), use_item(&["rayon", "iter"], true)]));
    assert!(has_prelude_import(&vec![use_item(&["std", "fmt"], false), use_item(&["rayon", "prelude"], true)]));
    assert_eq!(import_suggestion(), "#[allow(unused_imports)]\nuse rayon::prelude::*;\n");
}

#[test]
fn texts_are_written_one_after_the_other() {
    assert_eq!(join(&vec![]), "");
    assert_eq!(join(&vec!["a"]), "a");
    assert_eq!(join(&vec!["ab", "", "c", "déf"]), "abcdéf");
    assert_eq!(last_char(""), None);
    assert_eq!(last_char("ab;"), Some(';'));
    assert_eq!(last_char("dé"), Some('é'));
}

#[test]
fn ranges_are_recognised() {
    for item in [LangItem::Range, LangItem::RangeTo, LangItem::RangeFrom, LangItem::RangeToInclusive, LangItem::RangeInclusiveNew] {
        assert!(is_range_expr(&ArgShape::Struct(item)));
        assert!(is_range_expr(&ArgShape::Call(item)));
    }
    assert!(!is_range_expr(&ArgShape::Struct(LangItem::Other)));
    assert!(!is_range_expr(&ArgShape::Call(LangItem::Other)));
    assert!(!is_range_expr(&ArgShape::Other));
}

#[test]
fn traversal_gets_an_explicit_start_unless_it_is_an_iterator() {
    assert_eq!(traversal_snippet("v", false, false), "(v).into_iter()");
    assert_eq!(traversal_snippet("0..n", true, true), "(0..n).into_iter()");
    assert_eq!(traversal_snippet("0..n", false, true), "(0..n).into_iter()");
    assert_eq!(traversal_snippet("v.iter()", true, false), "(v.iter())");
}

#[test]
fn last_statement_is_closed() {
    assert_eq!(terminated("a += 1;"), "a += 1;");
    assert_eq!(terminated("a += 1;  \n"), "a += 1;  \n");
    assert_eq!(terminated("if x { y }"), "if x { y }");
    assert_eq!(terminated("foo(x)"), "foo(x);");
    assert_eq!(terminated("foo(x)  \n\t"), "foo(x);");
    assert_eq!(terminated(""), ";");
    assert_eq!(terminated("   "), ";");
    assert_eq!(terminate("foo(x) ", "foo(x)"), "foo(x);");
    assert_eq!(terminate("foo(x); ", "foo(x);"), "foo(x); ");
}

#[test]
fn constructors_wrap_the_unit_value() {
    assert_eq!(constructor(TryKind::Option), Some("Some"));
    assert_eq!(constructor(TryKind::Result), Some("Ok"));
    assert_eq!(constructor(TryKind::Other), None);
}

fn snippets(body: &str, indent: Option<&str>) -> LoopSnippets {
    LoopSnippets {
        iter: "items".to_string(),
        pat: "x".to_string(),
        body: body.to_string(),
        outer_indent: "    ".to_string(),
        indent: indent.map(|s| s.to_string()),
    }
}

#[test]
fn loop_becomes_for_each() {
    let text = suggestion(&snippets("total(x)", None), false, false, false, None);
    assert_eq!(text, Some("(items).into_iter().for_each(|x| {\n        total(x);\n    });".to_string()));
}

#[test]
fn continue_becomes_return() {
    let text = suggestion(&snippets("if x > 1 { continue; }\n  use_it(x);", Some("  ")), true, false, true, None);
    assert_eq!(
        text,
        Some("(items).for_each(|x| {\n  if x > 1 { return; }\n  use_it(x);\n    });".to_string())
    );
    let kept = suggestion(&snippets("continue_it(x);", Some("  ")), true, false, false, None);
    assert_eq!(kept, Some("(items).for_each(|x| {\n  continue_it(x);\n    });".to_string()));
}

#[test]
fn loop_that_leaves_with_a_failure_becomes_try_for_each() {
    let text = suggestion(&snippets("let y = f(x)?;", Some("\t")), true, true, false, Some(TryKind::Option));
    assert_eq!(
        text,
        Some("(items).into_iter().try_for_each(|x| {\n\tlet y = f(x)?;\n\treturn Some(());\n    })?;".to_string())
    );
    let result = suggestion(&snippets("if x { continue }", None), true, false, true, Some(TryKind::Result));
    assert_eq!(
        result,
        Some(
            "(items).try_for_each(|x| {\n        if x { return Ok(()) }\n        return Ok(());\n    })?;"
                .to_string()
        )
    );
}

#[test]
fn loop_that_leaves_with_another_type_gets_no_suggestion() {
    assert_eq!(suggestion(&snippets("f(x);", None), true, false, false, Some(TryKind::Other)), None);
}

#[test]
fn binding_is_made_mutable() {
    assert_eq!(mut_binding(false, "items", ""), "mut items");
    assert_eq!(mut_binding(true, "items", ""), "ref mut items");
    assert_eq!(mut_binding(false, "items", " @ _"), "mut items @ _");
}

fn touch(effect: Effect) -> Expr {
    Expr::leaf(ExprKind::Touch(effect))
}

fn place(var: u64, ty: u64) -> Place {
    Place { base: PlaceBase::Local(var), base_ty: ty, base_is_mut_ref: false, node: var }
}

#[test]
fn convertible_loop_gets_its_text() {
    let body = Expr::node(
        ExprKind::Block(false),
        vec![touch(Effect::Copy(place(1, 10))), Expr::leaf(ExprKind::Continue(false))],
    );
    let text = check_expr(&body, &snippets("if x { continue }", None), true, &ArgShape::Struct(LangItem::Range));
    assert_eq!(
        text,
        Some("(items).into_iter().for_each(|x| {\n        if x { return }\n    });".to_string())
    );
}

#[test]
fn loop_with_a_break_gets_no_text() {
    let body = Expr::node(ExprKind::Block(false), vec![Expr::leaf(ExprKind::Break(false))]);
    assert_eq!(check_expr(&body, &snippets("break;", None), true, &ArgShape::Other), None);
}

#[test]
fn loop_that_moves_a_value_gets_no_text() {
    let moving = Expr::node(ExprKind::Block(false), vec![touch(Effect::Consume(place(1, 10)))]);
    assert_eq!(check_expr(&moving, &snippets("drop(v);", None), true, &ArgShape::Other), None);
    let copied = Expr::node(
        ExprKind::Block(false),
        vec![touch(Effect::Consume(place(1, 10))), touch(Effect::Copy(place(2, 10)))],
    );
    assert_eq!(
        check_expr(&copied, &snippets("f(a, b);", Some("  ")), true, &ArgShape::Other),
        Some("(items).for_each(|x| {\n  f(a, b);\n    });".to_string())
    );
}

#[test]
fn loop_becomes_a_plain_for_each() {
    assert_eq!(
        mate::for_each::for_each_suggestion("v", false, "x", "{ use_it(x); }", false),
        "(v).into_iter().for_each(|x| { use_it(x); });"
    );
    assert_eq!(
        mate::for_each::for_each_suggestion("v.iter()", true, "x", "{ if x { continue; } }", true),
        "(v.iter()).for_each(|x| { if x { return; } });"
    );
}

#[test]
fn for_each_is_offered_for_a_convertible_loop() {
    let body = Expr::node(ExprKind::Block(false), vec![Expr::leaf(ExprKind::Continue(false))]);
    let arg = call("iter", vec![Expr::leaf(ExprKind::Other)]);
    assert_eq!(
        mate::for_each::check_expr(&body, &arg, "v.iter()", "x", "{ continue }"),
        Some("(v.iter()).for_each(|x| { return });".to_string())
    );
    let plain = Expr::leaf(ExprKind::Other);
    assert_eq!(
        mate::for_each::check_expr(&plain, &plain, "v", "x", "{}"),
        Some("(v).into_iter().for_each(|x| {});".to_string())
    );
    let looping = Expr::node(ExprKind::Block(false), vec![Expr::leaf(ExprKind::Loop)]);
    assert_eq!(mate::for_each::check_expr(&looping, &arg, "v.iter()", "x", "{ loop {} }"), None);
    let moving = touch(Effect::Consume(place(1, 10)));
    assert_eq!(mate::for_each::check_expr(&moving, &arg, "v.iter()", "x", "{ drop(y) }"), None);
}

#[test]
fn text_ends_are_compared() {
    assert!(ends_with_text("build.rs", "build.rs"));
    assert!(ends_with_text("crate/build.rs", "build.rs"));
    assert!(ends_with_text("x", ""));
    assert!(ends_with_text("", ""));
    assert!(!ends_with_text("ild.rs", "build.rs"));
    assert!(!ends_with_text("build.rs.bak", "build.rs"));
    assert!(ends_with_text("dé/build.rs", "build.rs"));
}

#[test]
fn module_without_the_prelude_gets_the_import() {
    let plain = vec![use_item(&["std", "fmt"], false)];
    let with = vec![use_item(&["rayon", "prelude"], true)];
    assert_eq!(check_mod(Some("src/lib.rs"), &plain), Some("#[allow(unused_imports)]\nuse rayon::prelude::*;\n"));
    assert_eq!(check_mod(None, &plain), Some("#[allow(unused_imports)]\nuse rayon::prelude::*;\n"));
    assert_eq!(check_mod(Some("src/lib.rs"), &with), None);
    assert_eq!(check_mod(Some("build.rs"), &plain), None);
    assert_eq!(check_mod(Some("pkg/build.rs"), &vec![]), None);
}

#[test]
fn reachable_type_without_debug_is_reported() {
    let base = DebugFacts { reachable: true, kind: ItemKind::Struct, allowed: false, trait_known: true, has_impl: false };
    assert!(is_missing_debug(&base));
    assert!(is_missing_debug(&DebugFacts { kind: ItemKind::Enum, ..base }));
    assert!(is_missing_debug(&DebugFacts { kind: ItemKind::Union, ..base }));
    assert!(!is_missing_debug(&DebugFacts { kind: ItemKind::Other, ..base }));
    assert!(!is_missing_debug(&DebugFacts { reachable: false, ..base }));
    assert!(!is_missing_debug(&DebugFacts { allowed: true, ..base }));
    assert!(!is_missing_debug(&DebugFacts { trait_known: false, ..base }));
    assert!(!is_missing_debug(&DebugFacts { has_impl: true, ..base }));
}

fn returning(facts: Option<ReturnFacts>) -> Expr {
    Expr::node(
        ExprKind::Block(false),
        vec![touch(Effect::Copy(place(1, 10))), Expr::node(ExprKind::Other, vec![Expr::leaf(ExprKind::Return(facts))])],
    )
}

fn failure(shape: ReturnShape, is_option: bool) -> ReturnFacts {
    ReturnFacts {
        short_circuits: true,
        shape,
        is_option,
        is_none: is_option,
        is_result: !is_option,
        is_err: !is_option,
        is_from_residual: false,
    }
}

// for index in 0..n { let item = locals.get(index); if !item.is_some() { return; } }
#[test]
fn return_loop() {
    let body = returning(None);
    assert_eq!(check_expr(&body, &snippets("if !ok { return; }", None), true, &ArgShape::Struct(LangItem::Range)), None);
    assert_eq!(mate::for_each::check_expr(&body, &Expr::leaf(ExprKind::Other), "0..n", "index", "{ return; }"), None);
}

// for index in 0..n { if item.is_none() { return None; } }
#[test]
fn return_loop_expand() {
    let body = returning(Some(failure(ReturnShape::Path, true)));
    assert_eq!(
        check_expr(&body, &snippets("if bad { return None; }", Some("  ")), true, &ArgShape::Other),
        Some("(items).try_for_each(|x| {\n  if bad { return None; }\n  return Some(());\n    })?;".to_string())
    );
    assert_eq!(mate::for_each::check_expr(&body, &Expr::leaf(ExprKind::Other), "v", "x", "{ return None; }"), None);
}

#[test]
fn loop_that_returns_an_error_becomes_try_for_each() {
    let body = returning(Some(failure(ReturnShape::PathCall, false)));
    assert_eq!(
        check_expr(&body, &snippets("return Err(e);", Some("  ")), true, &ArgShape::Other),
        Some("(items).try_for_each(|x| {\n  return Err(e);\n  return Ok(());\n    })?;".to_string())
    );
    assert_eq!(mate::for_each::check_expr(&body, &Expr::leaf(ExprKind::Other), "v", "x", "{ return Err(e); }"), None);
}

#[test]
fn loop_that_passes_a_failure_through_goes_by_its_type() {
    let mut through = failure(ReturnShape::PathCall, true);
    through.is_none = false;
    through.is_from_residual = true;
    assert!(check_expr(&returning(Some(through)), &snippets("f(x)?;", None), true, &ArgShape::Other)
        .unwrap()
        .ends_with("return Some(());\n    })?;"));
    through.is_option = false;
    assert_eq!(check_expr(&returning(Some(through)), &snippets("f(x)?;", None), true, &ArgShape::Other), None);
}

#[test]
fn loop_that_returns_in_two_ways_gets_no_text() {
    let both = Expr::node(
        ExprKind::Block(false),
        vec![returning(Some(failure(ReturnShape::Path, true))), returning(Some(failure(ReturnShape::PathCall, false)))],
    );
    assert_eq!(check_expr(&both, &snippets("f(x);", None), true, &ArgShape::Other), None);
    let bare_too = Expr::node(
        ExprKind::Block(false),
        vec![returning(Some(failure(ReturnShape::Path, true))), returning(None)],
    );
    assert_eq!(check_expr(&bare_too, &snippets("f(x);", None), true, &ArgShape::Other), None);
    let twice = Expr::node(
        ExprKind::Block(false),
        vec![returning(Some(failure(ReturnShape::Path, true))), returning(Some(failure(ReturnShape::Path, true)))],
    );
    assert!(check_expr(&twice, &snippets("f(x);", None), true, &ArgShape::Other).is_some());
}

#[test]
fn loop_that_returns_a_value_that_is_no_failure_gets_no_text() {
    let mut ok = failure(ReturnShape::PathCall, false);
    ok.is_err = false;
    assert_eq!(check_expr(&returning(Some(ok)), &snippets("return Ok(1);", None), true, &ArgShape::Other), None);
}

#[test]
fn binding_is_made_mutable_only_for_try_for_each_over_an_immutable_local() {
    assert!(needs_mut_binding(Some(TryKind::Option), true, false));
    assert!(needs_mut_binding(Some(TryKind::Result), true, false));
    assert!(needs_mut_binding(Some(TryKind::Other), true, false));
    assert!(!needs_mut_binding(None, true, false));
    assert!(!needs_mut_binding(Some(TryKind::Option), false, false));
    assert!(!needs_mut_binding(Some(TryKind::Option), true, true));
}

#[test]
fn exit_gives_the_kind_of_type() {
    assert_eq!(try_kind(Exit::Stays), None);
    assert_eq!(try_kind(Exit::Bare), None);
    assert_eq!(try_kind(Exit::Option), Some(TryKind::Option));
    assert_eq!(try_kind(Exit::Result), Some(TryKind::Result));
    assert_eq!(try_kind(Exit::Other), Some(TryKind::Other));
}
