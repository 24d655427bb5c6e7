use crate::adapters::same_name;
use crate::chain::Span;
use crate::text::join;
use crate::text::joined;
use crate::text::texts;
use crate::utils::Node;
use crate::utils::NodeKind;
use crate::utils::get_pat_expr_and_spans;
use crate::utils::pat_expr_and_spans;
use vstd::prelude::*;
use vstd::string::StringExecFns;

verus! {

/// The collections that a closure may fill item by item.
#[derive(Clone, Copy, Debug, PartialEq, Eq, Structural)]
pub enum Collection {
    Vec,
    HashMap,
    HashSet,
    BTreeMap,
    BTreeSet,
}

impl Collection {
    /// The method that puts one item into the collection.
    pub open spec fn method(self) -> Seq<char> {
        match self {
            Collection::Vec => "push"@,
            _ => "insert"@,
        }
    }

    /// The name of the collection's type.
    pub open spec fn type_text(self) -> Seq<char> {
        match self {
            Collection::Vec => "Vec"@,
            Collection::HashMap => "HashMap"@,
            Collection::HashSet => "HashSet"@,
            Collection::BTreeMap => "BTreeMap"@,
            Collection::BTreeSet => "BTreeSet"@,
        }
    }

    /// The method that puts one item into the collection.
    pub fn method_name(&self) -> (name: &'static str)
        ensures
            name@ == self.method(),
    {
        match self {
            Collection::Vec => "push",
            _ => "insert",
        }
    }

    /// The name of the collection's type.
    pub fn collection_name(&self) -> (name: &'static str)
        ensures
            name@ == self.type_text(),
    {
        match self {
            Collection::Vec => "Vec",
            Collection::HashMap => "HashMap",
            Collection::HashSet => "HashSet",
            Collection::BTreeMap => "BTreeMap",
            Collection::BTreeSet => "BTreeSet",
        }
    }
}

/// The parts of a closure that puts one item into a collection.
#[derive(Clone, Copy, Debug, PartialEq, Eq, Structural)]
pub struct MapParts {
    /// The collection.
    pub coll: Span,
    /// The arguments of the call, from the first to the last.
    pub args: Span,
    /// How many arguments the call has.
    pub arity: usize,
    /// The local definitions before the call, if there are any.
    pub local_defs: Option<Span>,
}

/// The parts of a closure's body that is, after local definitions, a single
/// call of the collection's method on a path, with at least one argument;
/// `is_collection` says that the path is such a collection.
pub open spec fn map_parts(body: Node, collection: Collection, is_collection: bool) -> Option<
    MapParts,
> {
    match pat_expr_and_spans(body) {
        Some((Some(pat), local_defs, None)) => match pat.kind {
            NodeKind::MethodCall(name, _, coll, args) => if name@ == collection.method()
                && coll.kind is Path && is_collection && args@.len() > 0 {
                Some(
                    MapParts {
                        coll: coll.span,
                        args: args@[0].span.joined(args@[args@.len() - 1].span),
                        arity: args@.len() as usize,
                        local_defs,
                    },
                )
            } else {
                None
            },
            _ => None,
        },
        _ => None,
    }
}

/// Finds the parts of a closure's body that puts one item into a collection.
pub fn find_map(body: &Node, collection: Collection, is_collection: bool) -> (parts: Option<
    MapParts,
>)
    ensures
        parts == map_parts(*body, collection, is_collection),
{
    match get_pat_expr_and_spans(body) {
        Some((Some(pat), local_defs, None)) => match &pat.kind {
            NodeKind::MethodCall(name, _, coll, args) => {
                let is_path = match &coll.kind {
                    NodeKind::Path => true,
                    _ => false,
                };
                if same_name(name.as_str(), collection.method_name()) && is_path && is_collection
                    && args.len() > 0 {
                    Some(
                        MapParts {
                            coll: coll.span,
                            args: args[0].span.to(&args[args.len() - 1].span),
                            arity: args.len(),
                            local_defs,
                        },
                    )
                } else {
                    None
                }
            },
            _ => None,
        },
        _ => None,
    }
}

/// As many placeholders as the collection's items have parts, with commas
/// between them.
pub open spec fn placeholders(n: nat) -> Seq<char>
    decreases n,
{
    if n == 0 {
        Seq::empty()
    } else if n == 1 {
        "_"@
    } else {
        placeholders((n - 1) as nat) + ",_"@
    }
}

/// Writes as many placeholders as the collection's items have parts.
pub fn type_args(n: usize) -> (text: String)
    ensures
        text@ == placeholders(n as nat),
{
    let mut text = String::new();
    if n == 0 {
        return text;
    }
    text.append("_");
    assert(text@ =~= "_"@);
    let mut i: usize = 1;
    while i < n
        invariant
            1 <= i <= n,
            text@ == placeholders(i as nat),
        decreases n - i,
    {
        text.append(",_");
        i = i + 1;
    }
    text
}

/// The call that takes the place of a `for_each` whose closure puts one item
/// into a collection: the collection is extended by the items, which a `map`
/// makes and a `collect` gathers. Several arguments make a tuple.
pub open spec fn map_text(
    collection: Collection,
    arity: nat,
    coll: Seq<char>,
    recv: Seq<char>,
    pat: Seq<char>,
    local_defs: Seq<char>,
    args: Seq<char>,
) -> Seq<char> {
    joined(
        seq![
            coll,
            ".extend("@,
            recv,
            ".map(|"@,
            pat,
            "| { "@,
            local_defs,
            " "@,
            if arity > 1 {
                joined(seq!["("@, args, ")"@])
            } else {
                args
            },
            " }).collect::<"@,
            collection.type_text(),
            "<"@,
            placeholders(arity),
            ">>())"@,
        ],
    )
}

/// Writes the call that takes the place of a `for_each` whose closure puts
/// one item into a collection.
pub fn map_suggestion(
    collection: Collection,
    arity: usize,
    coll: &str,
    recv: &str,
    pat: &str,
    local_defs: &str,
    args: &str,
) -> (text: String)
    ensures
        text@ == map_text(collection, arity as nat, coll@, recv@, pat@, local_defs@, args@),
{
    let item = if arity > 1 {
        let tuple = vec!["(", args, ")"];
        assert(texts(tuple@) =~= seq!["("@, args@, ")"@]);
        join(&tuple)
    } else {
        args.to_owned()
    };
    let holes = type_args(arity);
    let parts = vec![
        coll,
        ".extend(",
        recv,
        ".map(|",
        pat,
        "| { ",
        local_defs,
        " ",
        item.as_str(),
        " }).collect::<",
        collection.collection_name(),
        "<",
        holes.as_str(),
        ">>())",
    ];
    assert(texts(parts@) =~= seq![
        coll@,
        ".extend("@,
        recv@,
        ".map(|"@,
        pat@,
        "| { "@,
        local_defs@,
        " "@,
        item@,
        " }).collect::<"@,
        collection.type_text(),
        "<"@,
        holes@,
        ">>())"@,
    ]);
    join(&parts)
}

} // verus!
