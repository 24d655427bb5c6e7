use crate::syntax::Expr;
use crate::text::join;
use crate::text::joined;
use crate::text::last_char;
use crate::text::replace_text;
use crate::text::replaced;
use crate::text::texts;
use crate::text::trim_end;
use crate::text::trimmed_end;
use crate::type_usage::TypeUsage;
use crate::type_usage::check_variables;
use crate::usage::steps_of;
use crate::validity::Exit;
use crate::validity::holds_bare_return;
use crate::validity::holds_return;
use crate::validity::is_convertible;
use crate::validity::lemma_bare_return_exit;
use crate::validity::lemma_exit_none_iff_no_return;
use crate::validity::verdict;
use vstd::prelude::*;

verus! {

/// The kind of type that a loop leaves its function with.
#[derive(Clone, Copy, Debug, PartialEq, Eq, Structural)]
pub enum TryKind {
    /// The optional type.
    Option,
    /// The fallible type.
    Result,
    /// Any other short-circuiting type.
    Other,
}

/// The language items that a range expression is made of.
#[derive(Clone, Copy, Debug, PartialEq, Eq, Structural)]
pub enum LangItem {
    Range,
    RangeTo,
    RangeFrom,
    RangeToInclusive,
    RangeInclusiveNew,
    /// Any other language item.
    Other,
}

/// The shape of the expression that a loop runs over.
#[derive(Clone, Copy, Debug, PartialEq, Eq, Structural)]
pub enum ArgShape {
    /// A struct expression whose path is a language item.
    Struct(LangItem),
    /// A call whose callee is the path of a language item.
    Call(LangItem),
    /// Anything else.
    Other,
}

/// The source text of the parts of a loop.
pub struct LoopSnippets {
    /// The expression that the loop runs over.
    pub iter: String,
    /// The loop's pattern.
    pub pat: String,
    /// The statements of the loop's body.
    pub body: String,
    /// The indentation of the loop.
    pub outer_indent: String,
    /// The indentation of the loop's body, where the source shows it.
    pub indent: Option<String>,
}

/// The language item is one of those that make a range.
pub open spec fn range_item(item: LangItem) -> bool {
    item != LangItem::Other
}

/// The expression is a range.
pub open spec fn range_expr(arg: ArgShape) -> bool {
    match arg {
        ArgShape::Struct(item) => range_item(item),
        ArgShape::Call(item) => range_item(item),
        ArgShape::Other => false,
    }
}

/// Whether the expression that a loop runs over is a range.
pub fn is_range_expr(arg: &ArgShape) -> (range: bool)
    ensures
        range == range_expr(*arg),
{
    match arg {
        ArgShape::Struct(LangItem::Other) => false,
        ArgShape::Struct(_) => true,
        ArgShape::Call(LangItem::Other) => false,
        ArgShape::Call(_) => true,
        ArgShape::Other => false,
    }
}

/// The text that starts the traversal: the expression in parentheses, with an
/// explicit `into_iter` unless it is an iterator already and no range.
pub open spec fn traversal_text(iter: Seq<char>, is_iterator: bool, is_range: bool) -> Seq<char> {
    if !is_iterator || is_range {
        joined(seq!["("@, iter, ").into_iter()"@])
    } else {
        joined(seq!["("@, iter, ")"@])
    }
}

/// Writes the text that starts the traversal.
pub fn traversal_snippet(iter: &str, is_iterator: bool, is_range: bool) -> (text: String)
    ensures
        text@ == traversal_text(iter@, is_iterator, is_range),
{
    if !is_iterator || is_range {
        let parts = vec!["(", iter, ").into_iter()"];
        assert(texts(parts@) =~= seq!["("@, iter@, ").into_iter()"@]);
        join(&parts)
    } else {
        let parts = vec!["(", iter, ")"];
        assert(texts(parts@) =~= seq!["("@, iter@, ")"@]);
        join(&parts)
    }
}

/// The text of a body whose last statement is closed, given the body cut of
/// the white space at its end: the body as it is where the cut text ends in a
/// semicolon or a brace; else the cut text with a semicolon.
pub open spec fn terminated_with(body: Seq<char>, cut: Seq<char>) -> Seq<char> {
    if cut.len() > 0 && (cut.last() == ';' || cut.last() == '}') {
        body
    } else {
        joined(seq![cut, ";"@])
    }
}

/// The text of a body whose last statement is closed.
pub open spec fn terminated_text(body: Seq<char>) -> Seq<char> {
    terminated_with(body, trimmed_end(body))
}

/// Closes the last statement of a body, given the body cut of the white space
/// at its end.
pub fn terminate(body: &str, cut: &str) -> (text: String)
    ensures
        text@ == terminated_with(body@, cut@),
{
    let closed = match last_char(cut) {
        Some(c) => c == ';' || c == '}',
        None => false,
    };
    if closed {
        body.to_owned()
    } else {
        let parts = vec![cut, ";"];
        assert(texts(parts@) =~= seq![cut@, ";"@]);
        join(&parts)
    }
}

/// Closes the last statement of a body.
pub fn terminated(body: &str) -> (text: String)
    ensures
        text@ == terminated_text(body@),
{
    let cut = trim_end(body);
    terminate(body, cut)
}

/// The constructor that wraps the unit value when the closure goes on.
pub open spec fn constructor_text(kind: TryKind) -> Option<Seq<char>> {
    match kind {
        TryKind::Option => Some("Some"@),
        TryKind::Result => Some("Ok"@),
        TryKind::Other => None,
    }
}

/// The constructor that wraps the unit value when the closure goes on, if the
/// type has a known one.
pub fn constructor(kind: TryKind) -> (name: Option<&'static str>)
    ensures
        match name {
            Some(text) => constructor_text(kind) == Some(text@),
            None => constructor_text(kind).is_none(),
        },
{
    match kind {
        TryKind::Option => Some("Some"),
        TryKind::Result => Some("Ok"),
        TryKind::Other => None,
    }
}

/// The indentation of the body: the one the source shows, else four spaces
/// more than the loop's.
pub open spec fn body_indent(snippets: LoopSnippets) -> Seq<char> {
    match snippets.indent {
        Some(indent) => indent@,
        None => joined(seq![snippets.outer_indent@, "    "@]),
    }
}

/// The `for_each` call that takes the place of a loop that does not leave its
/// function.
pub open spec fn for_each_text(
    snippets: LoopSnippets,
    traversal: Seq<char>,
    has_continue: bool,
) -> Seq<char> {
    let closed = terminated_text(snippets.body@);
    let body = if has_continue {
        replaced(closed, "continue"@, "return"@)
    } else {
        closed
    };
    joined(
        seq![
            traversal,
            ".for_each(|"@,
            snippets.pat@,
            "| {\n"@,
            body_indent(snippets),
            body,
            "\n"@,
            snippets.outer_indent@,
            "});"@,
        ],
    )
}

/// The `try_for_each` call that takes the place of a loop that leaves its
/// function with a failure; `constr` wraps the unit value.
pub open spec fn try_for_each_text(
    snippets: LoopSnippets,
    traversal: Seq<char>,
    has_continue: bool,
    constr: Seq<char>,
) -> Seq<char> {
    let closed = terminated_text(snippets.body@);
    let body = if has_continue {
        replaced(closed, "continue"@, joined(seq!["return "@, constr, "(())"@]))
    } else {
        closed
    };
    joined(
        seq![
            traversal,
            ".try_for_each(|"@,
            snippets.pat@,
            "| {\n"@,
            body_indent(snippets),
            body,
            "\n"@,
            body_indent(snippets),
            "return "@,
            constr,
            "(());\n"@,
            snippets.outer_indent@,
            "})?;"@,
        ],
    )
}

/// The text that takes the place of a loop: a `for_each` where the loop does
/// not leave its function, a `try_for_each` where it leaves it with a failure of
/// the optional or the fallible type, and nothing where it leaves it with any
/// other type.
pub open spec fn suggestion_text(
    snippets: LoopSnippets,
    is_iterator: bool,
    is_range: bool,
    has_continue: bool,
    exit: Option<TryKind>,
) -> Option<Seq<char>> {
    let traversal = traversal_text(snippets.iter@, is_iterator, is_range);
    match exit {
        None => Some(for_each_text(snippets, traversal, has_continue)),
        Some(kind) => match constructor_text(kind) {
            Some(constr) => Some(try_for_each_text(snippets, traversal, has_continue, constr)),
            None => None,
        },
    }
}

/// Writes the indentation of the body.
fn indent_of(snippets: &LoopSnippets) -> (indent: String)
    ensures
        indent@ == body_indent(*snippets),
{
    match &snippets.indent {
        Some(indent) => indent.clone(),
        None => {
            let parts = vec![snippets.outer_indent.as_str(), "    "];
            assert(texts(parts@) =~= seq![snippets.outer_indent@, "    "@]);
            join(&parts)
        },
    }
}

/// Writes the text that takes the place of a loop, if there is one; `exit`
/// says with what kind of type the loop leaves its function, if it does.
pub fn suggestion(
    snippets: &LoopSnippets,
    is_iterator: bool,
    is_range: bool,
    has_continue: bool,
    exit: Option<TryKind>,
) -> (text: Option<String>)
    ensures
        match text {
            Some(t) => suggestion_text(*snippets, is_iterator, is_range, has_continue, exit)
                == Some(t@),
            None => suggestion_text(*snippets, is_iterator, is_range, has_continue, exit).is_none(),
        },
{
    let traversal = traversal_snippet(snippets.iter.as_str(), is_iterator, is_range);
    let closed = terminated(snippets.body.as_str());
    let indent = indent_of(snippets);
    proof {
        reveal_strlit("continue");
    }
    match exit {
        None => {
            let body = if has_continue {
                replace_text(closed.as_str(), "continue", "return")
            } else {
                closed
            };
            let parts = vec![
                traversal.as_str(),
                ".for_each(|",
                snippets.pat.as_str(),
                "| {\n",
                indent.as_str(),
                body.as_str(),
                "\n",
                snippets.outer_indent.as_str(),
                "});",
            ];
            assert(texts(parts@) =~= seq![
                traversal@,
                ".for_each(|"@,
                snippets.pat@,
                "| {\n"@,
                indent@,
                body@,
                "\n"@,
                snippets.outer_indent@,
                "});"@,
            ]);
            Some(join(&parts))
        },
        Some(kind) => {
            let constr = match constructor(kind) {
                Some(constr) => constr,
                None => {
                    return None;
                },
            };
            let body = if has_continue {
                let leave = vec!["return ", constr, "(())"];
                assert(texts(leave@) =~= seq!["return "@, constr@, "(())"@]);
                let leaving = join(&leave);
                replace_text(closed.as_str(), "continue", leaving.as_str())
            } else {
                closed
            };
            let parts = vec![
                traversal.as_str(),
                ".try_for_each(|",
                snippets.pat.as_str(),
                "| {\n",
                indent.as_str(),
                body.as_str(),
                "\n",
                indent.as_str(),
                "return ",
                constr,
                "(());\n",
                snippets.outer_indent.as_str(),
                "})?;",
            ];
            assert(texts(parts@) =~= seq![
                traversal@,
                ".try_for_each(|"@,
                snippets.pat@,
                "| {\n"@,
                indent@,
                body@,
                "\n"@,
                indent@,
                "return "@,
                constr@,
                "(());\n"@,
                snippets.outer_indent@,
                "})?;"@,
            ]);
            Some(join(&parts))
        },
    }
}

/// The pattern that makes a binding mutable: `ref ` where it binds by
/// reference, `mut`, the name and what follows the name.
pub open spec fn mut_binding_text(by_ref: bool, name: Seq<char>, rest: Seq<char>) -> Seq<char> {
    joined(seq![if by_ref {
        "ref "@
    } else {
        ""@
    }, "mut "@, name, rest])
}

/// Writes the pattern that makes a binding mutable.
pub fn mut_binding(by_ref: bool, name: &str, rest: &str) -> (text: String)
    ensures
        text@ == mut_binding_text(by_ref, name@, rest@),
{
    let head = if by_ref {
        "ref "
    } else {
        ""
    };
    let parts = vec![head, "mut ", name, rest];
    assert(texts(parts@) =~= seq![head@, "mut "@, name@, rest@]);
    join(&parts)
}

/// The kind of type that a body leaves its function with, where it leaves it
/// with a value.
pub open spec fn try_kind_of(exit: Exit) -> Option<TryKind> {
    match exit {
        Exit::Option => Some(TryKind::Option),
        Exit::Result => Some(TryKind::Result),
        Exit::Other => Some(TryKind::Other),
        _ => None,
    }
}

/// The kind of type that a body leaves its function with, where it leaves it
/// with a value.
pub fn try_kind(exit: Exit) -> (kind: Option<TryKind>)
    ensures
        kind == try_kind_of(exit),
{
    match exit {
        Exit::Option => Some(TryKind::Option),
        Exit::Result => Some(TryKind::Result),
        Exit::Other => Some(TryKind::Other),
        _ => None,
    }
}

/// Whether the variable that the loop runs over has to be made mutable: it
/// has where the loop leaves its function with a value, so that it becomes a
/// `try_for_each`, and runs over a local variable that is not mutable yet.
pub fn needs_mut_binding(exit: Option<TryKind>, arg_is_local: bool, binding_is_mut: bool) -> (needed:
    bool)
    ensures
        needed == (exit.is_some() && arg_is_local && !binding_is_mut),
{
    exit.is_some() && arg_is_local && !binding_is_mut
}

/// What is offered for a loop. Nothing where its body holds what the rewrite
/// cannot keep, or moves a value of a type that it does not also duplicate.
/// Else the form follows from how the body leaves its function: a `for_each`
/// where it holds no `return`; a `try_for_each` where every `return` hands back
/// a failure of the optional type, or every one a failure of the fallible
/// type; and nothing where it returns without a value, with a value of another
/// type, or in more than one way.
pub open spec fn loop_text(
    body: Expr,
    snippets: LoopSnippets,
    is_iterator: bool,
    arg: ArgShape,
) -> Option<Seq<char>> {
    let found = verdict(body);
    if !found.valid || !TypeUsage::empty().run(steps_of(body, false)).moves_only_copies() {
        None
    } else {
        match found.exit {
            Exit::Stays => suggestion_text(
                snippets,
                is_iterator,
                range_expr(arg),
                found.has_unlabeled_continue,
                None,
            ),
            Exit::Option => suggestion_text(
                snippets,
                is_iterator,
                range_expr(arg),
                found.has_unlabeled_continue,
                Some(TryKind::Option),
            ),
            Exit::Result => suggestion_text(
                snippets,
                is_iterator,
                range_expr(arg),
                found.has_unlabeled_continue,
                Some(TryKind::Result),
            ),
            _ => None,
        }
    }
}

/// Decides on a loop and, where it can become a call on an iterator, writes the
/// text that takes its place.
pub fn check_expr(body: &Expr, snippets: &LoopSnippets, is_iterator: bool, arg: &ArgShape) -> (text:
    Option<String>)
    ensures
        match text {
            Some(t) => loop_text(*body, *snippets, is_iterator, *arg) == Some(t@),
            None => loop_text(*body, *snippets, is_iterator, *arg).is_none(),
        },
{
    let found = is_convertible(body);
    if !found.valid {
        return None;
    }
    if !check_variables(body).only_copies_moved() {
        return None;
    }
    let exit = match found.exit {
        Exit::Stays => None,
        Exit::Option => Some(TryKind::Option),
        Exit::Result => Some(TryKind::Result),
        _ => {
            return None;
        },
    };
    suggestion(snippets, is_iterator, is_range_expr(arg), found.has_unlabeled_continue, exit)
}

/// A loop whose body returns without a value, at any depth, is offered
/// nothing: in a closure the `return` would end one step of the traversal, not
/// the function.
pub proof fn lemma_bare_return_gets_no_text(
    body: Expr,
    snippets: LoopSnippets,
    is_iterator: bool,
    arg: ArgShape,
)
    requires
        holds_bare_return(body),
    ensures
        loop_text(body, snippets, is_iterator, arg).is_none(),
{
    lemma_bare_return_exit(body);
}

/// A loop whose body holds a `return` is offered a `try_for_each` or nothing,
/// never a `for_each`: it is offered a text only where every `return` hands back
/// a failure of the optional type, or every one a failure of the fallible type.
pub proof fn lemma_return_gets_no_for_each(
    body: Expr,
    snippets: LoopSnippets,
    is_iterator: bool,
    arg: ArgShape,
)
    requires
        holds_return(body),
    ensures
        loop_text(body, snippets, is_iterator, arg).is_some() ==> verdict(body).exit
            == Exit::Option || verdict(body).exit == Exit::Result,
{
    lemma_exit_none_iff_no_return(body);
}

} // verus!
