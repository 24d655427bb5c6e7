use crate::adapters::IterExplorer;
use crate::adapters::snip_text;
use crate::adapters::starts_traversal;
use crate::syntax::Expr;
use crate::text::join;
use crate::text::joined;
use crate::text::replace_text;
use crate::text::replaced;
use crate::text::texts;
use crate::type_usage::TypeUsage;
use crate::type_usage::check_variables;
use crate::usage::steps_of;
use crate::validity::Exit;
use crate::validity::holds_return;
use crate::validity::is_convertible;
use crate::validity::lemma_exit_none_iff_no_return;
use crate::validity::verdict;
use vstd::prelude::*;

verus! {

/// The `for_each` call that takes the place of a loop: the expression that the
/// loop ran over, with an explicit start of the traversal where it has none, and
/// the loop's body as a closure, in which `continue` has become `return`.
pub open spec fn for_each_text(
    iter: Seq<char>,
    is_iter: bool,
    pat: Seq<char>,
    body: Seq<char>,
    has_continue: bool,
) -> Seq<char> {
    joined(
        seq![
            "("@,
            iter,
            ")"@,
            snip_text(is_iter),
            ".for_each(|"@,
            pat,
            "| "@,
            if has_continue {
                replaced(body, "continue"@, "return"@)
            } else {
                body
            },
            ");"@,
        ],
    )
}

/// Writes the `for_each` call that takes the place of a loop.
pub fn for_each_suggestion(iter: &str, is_iter: bool, pat: &str, body: &str, has_continue: bool) -> (text:
    String)
    ensures
        text@ == for_each_text(iter@, is_iter, pat@, body@, has_continue),
{
    let explorer = IterExplorer { is_iter };
    let mc_snip = explorer.to_snip();
    proof {
        reveal_strlit("continue");
    }
    let body_snip = if has_continue {
        replace_text(body, "continue", "return")
    } else {
        body.to_owned()
    };
    let parts = vec![
        "(",
        iter,
        ")",
        mc_snip.as_str(),
        ".for_each(|",
        pat,
        "| ",
        body_snip.as_str(),
        ");",
    ];
    assert(texts(parts@) =~= seq![
        "("@,
        iter@,
        ")"@,
        mc_snip@,
        ".for_each(|"@,
        pat@,
        "| "@,
        body_snip@,
        ");"@,
    ]);
    join(&parts)
}

/// What is offered for a loop: nothing where its body holds what the rewrite
/// cannot keep or a `return` of any kind, or moves a value of a type that it
/// does not also duplicate; else the `for_each` call that takes its place.
pub open spec fn loop_text(
    body: Expr,
    arg: Expr,
    iter: Seq<char>,
    pat: Seq<char>,
    body_snip: Seq<char>,
) -> Option<Seq<char>> {
    if !verdict(body).valid || holds_return(body) || !TypeUsage::empty().run(
        steps_of(body, false),
    ).moves_only_copies() {
        None
    } else {
        Some(
            for_each_text(
                iter,
                starts_traversal(arg),
                pat,
                body_snip,
                verdict(body).has_unlabeled_continue,
            ),
        )
    }
}

/// Decides on a loop with the body `body` over the expression `arg` and, where
/// it can become a `for_each`, writes the call from the source texts of its
/// parts.
pub fn check_expr(body: &Expr, arg: &Expr, iter: &str, pat: &str, body_snip: &str) -> (text: Option<
    String,
>)
    ensures
        match text {
            Some(t) => loop_text(*body, *arg, iter@, pat@, body_snip@) == Some(t@),
            None => loop_text(*body, *arg, iter@, pat@, body_snip@).is_none(),
        },
{
    let found = is_convertible(body);
    proof {
        lemma_exit_none_iff_no_return(*body);
    }
    if !found.valid || found.exit != Exit::Stays || !check_variables(body).only_copies_moved() {
        return None;
    }
    let mut explorer = IterExplorer::new();
    explorer.visit_expr(arg);
    Some(for_each_suggestion(iter, explorer.is_iter, pat, body_snip, found.has_unlabeled_continue))
}

} // verus!
