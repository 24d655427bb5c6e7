use crate::syntax::Expr;
use crate::syntax::ExprKind;
use crate::text::replace_text;
use crate::text::replaced;
use vstd::prelude::*;

verus! {

/// Whether two names are the same.
pub fn same_name(a: &str, b: &str) -> (same: bool)
    ensures
        same == (a@ == b@),
{
    let left = a.to_owned();
    let right = b.to_owned();
    left == right
}

/// The methods that start a sequential traversal.
#[derive(Clone, Copy, Debug, PartialEq, Eq, Structural)]
pub enum EntryPoint {
    /// `into_iter`: the traversal owns the items.
    IntoIter,
    /// `iter`: the traversal borrows the items.
    Iter,
    /// `iter_mut`: the traversal borrows the items exclusively.
    IterMut,
}

impl EntryPoint {
    /// The entry point that a method name stands for, if it stands for one.
    pub open spec fn of_name(name: Seq<char>) -> Option<EntryPoint> {
        if name == "into_iter"@ {
            Some(EntryPoint::IntoIter)
        } else if name == "iter"@ {
            Some(EntryPoint::Iter)
        } else if name == "iter_mut"@ {
            Some(EntryPoint::IterMut)
        } else {
            None
        }
    }

    /// The name of the method that starts the concurrent traversal in its
    /// place.
    pub open spec fn parallel(self) -> Seq<char> {
        match self {
            EntryPoint::IntoIter => "into_par_iter"@,
            EntryPoint::Iter => "par_iter"@,
            EntryPoint::IterMut => "par_iter_mut"@,
        }
    }

    /// The entry point that a method name stands for, if it stands for one.
    pub fn from_name(name: &str) -> (entry: Option<EntryPoint>)
        ensures
            entry == EntryPoint::of_name(name@),
    {
        if same_name(name, "into_iter") {
            Some(EntryPoint::IntoIter)
        } else if same_name(name, "iter") {
            Some(EntryPoint::Iter)
        } else if same_name(name, "iter_mut") {
            Some(EntryPoint::IterMut)
        } else {
            None
        }
    }

    /// The name of the method that starts the concurrent traversal in its
    /// place.
    pub fn parallel_name(&self) -> (name: &'static str)
        ensures
            name@ == self.parallel(),
    {
        match self {
            EntryPoint::IntoIter => "into_par_iter",
            EntryPoint::Iter => "par_iter",
            EntryPoint::IterMut => "par_iter_mut",
        }
    }
}

/// The name is that of a method that starts a sequential traversal.
pub open spec fn is_entry_name(name: Seq<char>) -> bool {
    EntryPoint::of_name(name).is_some()
}

/// The names among the first `n` of a list.
pub open spec fn names_among(names: Seq<String>, n: nat) -> Set<Seq<char>>
    decreases n,
{
    if n == 0 || n > names.len() {
        Set::empty()
    } else {
        names_among(names, (n - 1) as nat).insert(names[n - 1]@)
    }
}

/// The names that every set of adapters holds: the entry points, and `map_or`.
pub open spec fn base_names() -> Set<Seq<char>> {
    Set::<Seq<char>>::empty().insert("into_iter"@).insert("iter"@).insert("iter_mut"@).insert(
        "map_or"@,
    )
}

/// The adapters that exist on the sequential and on the concurrent traversal
/// alike. The set is fixed once it is made.
pub struct AllowedAdapterSet {
    names: Vec<String>,
}

impl View for AllowedAdapterSet {
    type V = Set<Seq<char>>;

    closed spec fn view(&self) -> Set<Seq<char>> {
        names_among(self.names@, self.names@.len())
    }
}

/// The first `n` names of a list that goes on as another does.
proof fn lemma_names_prefix(short: Seq<String>, long: Seq<String>, n: nat)
    requires
        n <= short.len() <= long.len(),
        forall|j: int| 0 <= j < short.len() ==> short[j] == long[j],
    ensures
        names_among(short, n) == names_among(long, n),
    decreases n,
{
    if n > 0 {
        lemma_names_prefix(short, long, (n - 1) as nat);
    }
}

/// A name is among the first `n` exactly if one of them is the name.
proof fn lemma_names_among(names: Seq<String>, n: nat, name: Seq<char>)
    requires
        n <= names.len(),
    ensures
        names_among(names, n).contains(name) <==> exists|j: int|
            0 <= j < n && (#[trigger] names[j])@ == name,
    decreases n,
{
    if n > 0 {
        lemma_names_among(names, (n - 1) as nat, name);
        if names_among(names, n).contains(name) {
            if names[n - 1]@ == name {
            } else {
                let j = choose|j: int| 0 <= j < n - 1 && (#[trigger] names[j])@ == name;
                assert(0 <= j < n && names[j]@ == name);
            }
        }
    }
}

impl AllowedAdapterSet {
    /// The set of the base names and of the method names that the oracle found on
    /// both traversal interfaces.
    pub fn new(methods: Vec<String>) -> (set: AllowedAdapterSet)
        ensures
            set@ == base_names().union(names_among(methods@, methods@.len())),
    {
        let mut names = methods;
        let ghost given = names@;
        names.push("into_iter".to_owned());
        names.push("iter".to_owned());
        names.push("iter_mut".to_owned());
        names.push("map_or".to_owned());
        proof {
            let n = given.len();
            lemma_names_prefix(given, names@, n);
            assert(names_among(names@, n + 4) =~= base_names().union(names_among(given, n))) by {
                assert(names_among(names@, n + 4) == names_among(names@, n + 3).insert(
                    "map_or"@,
                ));
                assert(names_among(names@, n + 3) == names_among(names@, n + 2).insert(
                    "iter_mut"@,
                ));
                assert(names_among(names@, n + 2) == names_among(names@, n + 1).insert("iter"@));
                assert(names_among(names@, n + 1) == names_among(names@, n).insert(
                    "into_iter"@,
                ));
            }
        }
        AllowedAdapterSet { names }
    }

    /// Whether the set holds the name.
    pub fn contains(&self, name: &str) -> (found: bool)
        ensures
            found == self@.contains(name@),
    {
        let mut i: usize = 0;
        while i < self.names.len()
            invariant
                i <= self.names@.len(),
                forall|j: int| 0 <= j < i ==> (#[trigger] self.names@[j])@ != name@,
            decreases self.names@.len() - i,
        {
            if same_name(self.names[i].as_str(), name) {
                proof {
                    lemma_names_among(self.names@, self.names@.len(), name@);
                }
                return true;
            }
            i = i + 1;
        }
        proof {
            lemma_names_among(self.names@, self.names@.len(), name@);
        }
        false
    }
}

/// The source text of a traversal's start with the concurrent method in place
/// of the sequential one. The method's name is replaced wherever the text holds
/// it.
pub open spec fn suggested_text(method: Seq<char>, snippet: Seq<char>) -> Option<Seq<char>> {
    match EntryPoint::of_name(method) {
        Some(entry) => Some(replaced(snippet, method, entry.parallel())),
        None => None,
    }
}

/// Rewrites the source text of a call of `method_name` to start the
/// concurrent traversal: none where the method starts no traversal.
pub fn generate_suggestion(method_name: &str, snippet: &str) -> (text: Option<String>)
    ensures
        match text {
            Some(t) => suggested_text(method_name@, snippet@) == Some(t@),
            None => suggested_text(method_name@, snippet@).is_none(),
        },
{
    match EntryPoint::from_name(method_name) {
        Some(entry) => {
            proof {
                reveal_strlit("into_iter");
                reveal_strlit("iter");
                reveal_strlit("iter_mut");
            }
            Some(replace_text(snippet, method_name, entry.parallel_name()))
        },
        None => None,
    }
}

/// The text to put behind the expression that a loop runs over.
pub open spec fn snip_text(is_iter: bool) -> Seq<char> {
    if is_iter {
        Seq::empty()
    } else {
        ".into_iter()"@
    }
}

/// The expression starts a traversal somewhere along its receivers: it is a
/// call of an entry point, or a method call on such an expression.
pub open spec fn starts_traversal(e: Expr) -> bool
    decreases e,
{
    match e.kind {
        ExprKind::MethodCall(name) => is_entry_name(name@) || (e.children@.len() > 0
            && starts_traversal(e.children@[0])),
        _ => false,
    }
}

/// Finds out whether the expression that a loop runs over already starts a
/// traversal.
pub struct IterExplorer {
    pub is_iter: bool,
}

impl IterExplorer {
    /// An explorer that has found nothing yet.
    pub fn new() -> (explorer: IterExplorer)
        ensures
            !explorer.is_iter,
    {
        IterExplorer { is_iter: false }
    }

    /// The text to put behind the expression: nothing where it starts a
    /// traversal, an explicit `into_iter` where it does not.
    pub fn to_snip(&self) -> (snip: String)
        ensures
            snip@ == snip_text(self.is_iter),
    {
        if self.is_iter {
            String::new()
        } else {
            ".into_iter()".to_owned()
        }
    }

    /// Follows the receivers of method calls, and notes a traversal's start.
    pub fn visit_expr(&mut self, ex: &Expr)
        ensures
            final(self).is_iter == (old(self).is_iter || starts_traversal(*ex)),
        decreases ex,
    {
        if let ExprKind::MethodCall(name) = &ex.kind {
            if EntryPoint::from_name(name.as_str()).is_some() {
                self.is_iter = true;
            }
            if ex.children.len() > 0 {
                self.visit_expr(&ex.children[0]);
            }
        }
    }
}

} // verus!
