use crate::adapters::same_name;
use crate::text::replace_text;
use crate::text::replaced;
use vstd::prelude::*;

verus! {

/// A `use` item: the segments of its path, and whether it imports everything
/// below the path.
pub struct UseItem {
    pub segments: Vec<String>,
    pub glob: bool,
}

/// The item is `use rayon::prelude::*;`.
pub open spec fn imports_prelude(item: UseItem) -> bool {
    item.glob && item.segments@.len() == 2 && item.segments@[0]@ == "rayon"@
        && item.segments@[1]@ == "prelude"@
}

/// Whether the item is `use rayon::prelude::*;`.
pub fn is_prelude_import(item: &UseItem) -> (found: bool)
    ensures
        found == imports_prelude(*item),
{
    item.glob && item.segments.len() == 2 && same_name(item.segments[0].as_str(), "rayon")
        && same_name(item.segments[1].as_str(), "prelude")
}

/// Whether one of the items is `use rayon::prelude::*;`.
pub fn has_prelude_import(items: &Vec<UseItem>) -> (found: bool)
    ensures
        found == exists|i: int| 0 <= i < items@.len() && imports_prelude(#[trigger] items@[i]),
{
    let mut i: usize = 0;
    while i < items.len()
        invariant
            i <= items@.len(),
            forall|j: int| 0 <= j < i ==> !imports_prelude(#[trigger] items@[j]),
        decreases items@.len() - i,
    {
        if is_prelude_import(&items[i]) {
            return true;
        }
        i = i + 1;
    }
    false
}

/// The import to add where it is missing.
pub fn import_suggestion() -> (text: &'static str)
    ensures
        text@ == "#[allow(unused_imports)]\nuse rayon::prelude::*;\n"@,
{
    "#[allow(unused_imports)]\nuse rayon::prelude::*;\n"
}

/// The text ends in `suffix`.
pub open spec fn ends_in(text: Seq<char>, suffix: Seq<char>) -> bool {
    suffix.len() <= text.len() && text.subrange(text.len() - suffix.len(), text.len() as int)
        == suffix
}

/// Whether the text ends in `suffix`.
pub fn ends_with_text(text: &str, suffix: &str) -> (found: bool)
    ensures
        found == ends_in(text@, suffix@),
{
    let n = text.unicode_len();
    let m = suffix.unicode_len();
    if m > n {
        false
    } else {
        same_name(text.substring_char(n - m, n), suffix)
    }
}

/// What the lint says of a module: nothing in a build script, nothing where
/// the module imports the prelude, else the import to add.
pub open spec fn module_needs_import(file: Option<&str>, items: Seq<UseItem>) -> bool {
    !(file matches Some(name) && ends_in(name@, "build.rs"@)) && !exists|i: int|
        0 <= i < items.len() && imports_prelude(#[trigger] items[i])
}

/// Looks at the `use` items of a module in the file with the given name, if
/// it has one, and returns the import to add where the prelude is missing.
pub fn check_mod(file: Option<&str>, items: &Vec<UseItem>) -> (missing: Option<&'static str>)
    ensures
        missing.is_some() == module_needs_import(file, items@),
        missing matches Some(text) ==> text@ == "#[allow(unused_imports)]\nuse rayon::prelude::*;\n"@,
{
    if let Some(name) = file {
        if ends_with_text(name, "build.rs") {
            return None;
        }
    }
    if has_prelude_import(items) {
        None
    } else {
        Some(import_suggestion())
    }
}

/// The source text of a call of a method that the concurrent traversal has
/// under another name: `find` becomes `find_first`, `position` becomes
/// `position_first`.
pub open spec fn renamed_text(method: Seq<char>, snippet: Seq<char>) -> Option<Seq<char>> {
    if method == "find"@ {
        Some(replaced(snippet, ".find("@, ".find_first("@))
    } else if method == "position"@ {
        Some(replaced(snippet, ".position("@, ".position_first("@))
    } else {
        None
    }
}

/// Rewrites the source text of a call of a method that the concurrent
/// traversal has under another name: none for any other method.
pub fn deprecated_replacement(method: &str, snippet: &str) -> (text: Option<String>)
    ensures
        match text {
            Some(t) => renamed_text(method@, snippet@) == Some(t@),
            None => renamed_text(method@, snippet@).is_none(),
        },
{
    proof {
        reveal_strlit(".find(");
        reveal_strlit(".position(");
    }
    if same_name(method, "find") {
        Some(replace_text(snippet, ".find(", ".find_first("))
    } else if same_name(method, "position") {
        Some(replace_text(snippet, ".position(", ".position_first("))
    } else {
        None
    }
}

} // verus!
