use crate::name_map::NameMap;
use vstd::prelude::*;

verus! {

/// The safe code that a translation proposes, by the path of the function or
/// struct that it replaces.
pub struct TranslationSummary {
    pub fn_data: NameMap<String>,
    pub struct_data: NameMap<String>,
}

/// The lint that suggests the translation of a function or struct.
pub struct RawPointerTranslation {
    translation: TranslationSummary,
}

/// `needle` occurs in `hay`.
pub open spec fn mentions(hay: Seq<char>, needle: Seq<char>) -> bool {
    exists|i: int|
        0 <= i && i + needle.len() <= hay.len() && #[trigger] hay.subrange(i, i + needle.len())
            == needle
}

/// A translation is worth suggesting when it uses a box or an exclusive
/// reference.
pub open spec fn refactors(translation: Seq<char>) -> bool {
    mentions(translation, "Box"@) || mentions(translation, "&mut"@)
}

/// `str::contains` with a string as the pattern: whether the pattern occurs in
/// the string.
#[verifier::external_body]
fn contains_text(hay: &str, needle: &str) -> (found: bool)
    ensures
        found == mentions(hay@, needle@),
{
    hay.contains(needle)
}

/// Whether a translation is worth suggesting.
pub fn is_refactoring(translation: &str) -> (worth: bool)
    ensures
        worth == refactors(translation@),
{
    contains_text(translation, "Box") || contains_text(translation, "&mut")
}

impl Default for TranslationSummary {
    fn default() -> (summary: TranslationSummary)
        ensures
            summary.fn_data@ == Map::<Seq<char>, String>::empty(),
            summary.struct_data@ == Map::<Seq<char>, String>::empty(),
    {
        TranslationSummary { fn_data: NameMap::new(), struct_data: NameMap::new() }
    }
}

/// What the lint suggests in place of an item with the given translation.
pub open spec fn proposal(translation: String) -> Option<String> {
    if refactors(translation@) {
        Some(translation)
    } else {
        None
    }
}

impl RawPointerTranslation {
    /// The lint, with the translations it suggests from.
    pub fn new(translation: TranslationSummary) -> (lint: RawPointerTranslation)
        ensures
            lint.summary() == translation,
    {
        RawPointerTranslation { translation }
    }

    /// The translations that the lint suggests from.
    pub closed spec fn summary(self) -> TranslationSummary {
        self.translation
    }

    /// Whether there is a translation of the function.
    pub fn knows_fn(&self, path: &str) -> (known: bool)
        ensures
            known == self.summary().fn_data@.contains_key(path@),
    {
        self.translation.fn_data.get(path).is_some()
    }

    /// The code to suggest in place of a function, if its translation is worth
    /// suggesting. There must be a translation of the function.
    pub fn check_fn(&self, path: &str) -> (suggested: Option<String>)
        requires
            self.summary().fn_data@.contains_key(path@),
        ensures
            suggested == proposal(self.summary().fn_data@[path@]),
    {
        let translation = self.translation.fn_data.get(path).unwrap();
        if is_refactoring(translation.as_str()) {
            Some(translation.clone())
        } else {
            None
        }
    }

    /// The code to suggest in place of a struct: none where there is no
    /// translation of it, or none worth suggesting.
    pub fn check_struct(&self, path: &str) -> (suggested: Option<String>)
        ensures
            suggested == (if self.summary().struct_data@.contains_key(path@) {
                proposal(self.summary().struct_data@[path@])
            } else {
                None
            }),
    {
        match self.translation.struct_data.get(path) {
            Some(translation) => {
                if is_refactoring(translation.as_str()) {
                    Some(translation.clone())
                } else {
                    None
                }
            },
            None => None,
        }
    }
}

} // verus!
