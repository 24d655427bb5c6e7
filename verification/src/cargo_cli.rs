use crate::adapters::same_name;
use std::str::FromStr;
use vstd::prelude::*;

verus! {

/// The command line of the tool as cargo hands it over.
pub enum CargoCli {
    /// `cargo mate`.
    Mate(MateArgs),
}

/// The arguments of `cargo mate`.
pub struct MateArgs {
    /// The manifest of the package to look at, if one was named.
    pub manifest_path: Option<String>,
    /// The families of lints to run.
    pub category: Vec<Category>,
}

/// A family of lints.
#[derive(Debug, PartialEq, Eq, Structural, Copy, Clone)]
pub enum Category {
    Parallel,
    Rules,
    Safety,
}

/// What a string becomes when every character is put in lower case, as
/// `str::to_lowercase` does it.
pub uninterp spec fn lowercase(s: Seq<char>) -> Seq<char>;

/// `str::to_lowercase`: the result is the lower-case form of the argument.
#[verifier::external_body]
fn to_lowercase(s: &str) -> (lower: String)
    ensures
        lower@ == lowercase(s@),
{
    s.to_lowercase()
}

/// The category that a lower-case name stands for.
pub open spec fn category_named(name: Seq<char>) -> Option<Category> {
    if name == "parallel"@ {
        Some(Category::Parallel)
    } else if name == "rules"@ {
        Some(Category::Rules)
    } else if name == "safety"@ {
        Some(Category::Safety)
    } else {
        None
    }
}

/// What parsing a lower-case name gives: the category, or the complaint that
/// nothing matches.
pub open spec fn parsed(name: Seq<char>, found: Result<Category, &'static str>) -> bool {
    match found {
        Ok(category) => category_named(name) == Some(category),
        Err(complaint) => category_named(name).is_none() && complaint@ == "no match"@,
    }
}

impl Category {
    /// The category's name, as it is shown.
    pub open spec fn shown(self) -> Seq<char> {
        match self {
            Category::Parallel => "Parallel"@,
            Category::Rules => "Rules"@,
            Category::Safety => "Safety"@,
        }
    }

    /// The category that a name in lower case stands for.
    pub fn from_lowercase(name: &str) -> (found: Result<Category, &'static str>)
        ensures
            parsed(name@, found),
    {
        if same_name(name, "parallel") {
            Ok(Category::Parallel)
        } else if same_name(name, "rules") {
            Ok(Category::Rules)
        } else if same_name(name, "safety") {
            Ok(Category::Safety)
        } else {
            Err("no match")
        }
    }

    /// The category that a name stands for, whatever the case of its letters.
    pub fn parse(input: &str) -> (found: Result<Category, &'static str>)
        ensures
            parsed(lowercase(input@), found),
    {
        let lower = to_lowercase(input);
        Category::from_lowercase(lower.as_str())
    }

    /// The category's name, as it is shown.
    pub fn name(&self) -> (name: &'static str)
        ensures
            name@ == self.shown(),
    {
        match self {
            Category::Parallel => "Parallel",
            Category::Rules => "Rules",
            Category::Safety => "Safety",
        }
    }

    /// The category's name, as it is shown.
    pub fn to_string(&self) -> (shown: String)
        ensures
            shown@ == self.shown(),
    {
        self.name().to_owned()
    }
}

impl FromStr for Category {
    type Err = &'static str;

    fn from_str(input: &str) -> (found: Result<Category, &'static str>)
        ensures
            parsed(lowercase(input@), found),
    {
        Category::parse(input)
    }
}

impl Default for Category {
    fn default() -> (category: Category)
        ensures
            category == Category::Parallel,
    {
        Category::Parallel
    }
}

impl MateArgs {
    /// The arguments as given; where no category is named, the parallel lints
    /// are run.
    pub fn new(manifest_path: Option<String>, category: Vec<Category>) -> (args: MateArgs)
        ensures
            args.manifest_path == manifest_path,
            args.category@ == (if category@.len() == 0 {
                seq![Category::Parallel]
            } else {
                category@
            }),
    {
        if category.len() == 0 {
            let mut chosen: Vec<Category> = Vec::new();
            chosen.push(Category::Parallel);
            MateArgs { manifest_path, category: chosen }
        } else {
            MateArgs { manifest_path, category }
        }
    }

    /// Whether the lints of a category are to run.
    pub fn runs(&self, category: Category) -> (wanted: bool)
        ensures
            wanted == self.category@.contains(category),
    {
        let mut i: usize = 0;
        while i < self.category.len()
            invariant
                i <= self.category@.len(),
                forall|j: int| 0 <= j < i ==> self.category@[j] != category,
            decreases self.category@.len() - i,
        {
            if self.category[i] == category {
                return true;
            }
            i = i + 1;
        }
        false
    }
}

} // verus!
