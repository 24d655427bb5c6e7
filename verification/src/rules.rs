use vstd::prelude::*;

verus! {

/// The kind of an item, as far as the rules go.
#[derive(Clone, Copy, Debug, PartialEq, Eq, Structural)]
pub enum ItemKind {
    Struct,
    Union,
    Enum,
    /// Any other item.
    Other,
}

/// What is known of an item and of the way it can be printed for debugging.
#[derive(Clone, Copy, Debug, PartialEq, Eq, Structural)]
pub struct DebugFacts {
    /// The item can be reached from outside its crate.
    pub reachable: bool,
    /// The kind of the item.
    pub kind: ItemKind,
    /// The lint is allowed at the item.
    pub allowed: bool,
    /// The trait for debug output is known.
    pub trait_known: bool,
    /// The item's type implements the trait.
    pub has_impl: bool,
}

/// A reachable type is missing its debug output where the lint is not allowed
/// there, the trait is known and the type does not implement it.
pub open spec fn missing_debug(facts: DebugFacts) -> bool {
    facts.reachable && facts.kind != ItemKind::Other && !facts.allowed && facts.trait_known
        && !facts.has_impl
}

/// Whether an item is a reachable type that is missing its debug output.
pub fn is_missing_debug(facts: &DebugFacts) -> (missing: bool)
    ensures
        missing == missing_debug(*facts),
{
    if !facts.reachable {
        return false;
    }
    match facts.kind {
        ItemKind::Struct | ItemKind::Union | ItemKind::Enum => {},
        ItemKind::Other => {
            return false;
        },
    }
    if facts.allowed {
        return false;
    }
    if !facts.trait_known {
        return false;
    }
    !facts.has_impl
}

/// How many of the bytes from `from` up to `to` are line feeds.
pub open spec fn line_feeds(bytes: Seq<u8>, from: int, to: int) -> nat
    decreases to - from,
{
    if from >= to {
        0
    } else {
        line_feeds(bytes, from, to - 1) + if bytes[to - 1] == 10u8 {
            1nat
        } else {
            0nat
        }
    }
}

/// The text between the braces of a function's body is not empty and has an
/// odd number of lines. The body has its two braces at least.
pub open spec fn odd_lines(bytes: Seq<u8>) -> bool {
    bytes.len() > 2 && line_feeds(bytes, 1, bytes.len() - 1) % 2 == 0
}

/// Whether the text between the braces of a function's body is not empty and
/// has an odd number of lines; `bytes` is the body's source text, which must
/// hold its two braces.
pub fn has_odd_line_count(bytes: &[u8]) -> (odd: bool)
    requires
        bytes@.len() >= 2,
    ensures
        odd == odd_lines(bytes@),
{
    let n = bytes.len();
    if n == 2 {
        return false;
    }
    let mut even = true;
    let mut i: usize = 1;
    while i < n - 1
        invariant
            n == bytes@.len(),
            n > 2,
            1 <= i <= n - 1,
            even == (line_feeds(bytes@, 1, i as int) % 2 == 0),
        decreases n - i,
    {
        if bytes[i] == 10u8 {
            even = !even;
        }
        i = i + 1;
    }
    even
}

} // verus!
