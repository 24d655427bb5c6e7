use rustc_hash::FxBuildHasher;
use rustc_hash::FxHashMap;
use rustc_hash::FxHashSet;
use vstd::prelude::*;

verus! {

/// `rustc_hash::FxBuildHasher`, the hasher of the sets and maps below. Nothing is
/// said of what it computes.
#[verifier::external_type_specification]
#[verifier::external_body]
pub struct ExFxBuildHasher(FxBuildHasher);

/// A set of binding ids.
pub type IdSet = FxHashSet<u64>;

/// A map from binding ids to ids.
pub type IdMap = FxHashMap<u64, u64>;

/// `FxHashSet::default`: the new set holds nothing.
#[verifier::external_body]
pub(crate) fn set_new() -> (s: IdSet)
    ensures
        s@ == Set::<u64>::empty(),
{
    FxHashSet::default()
}

/// `HashSet::insert` on a set hashed by `FxBuildHasher`: afterwards the set holds
/// what it held and `id`, and the result says whether `id` was new.
#[verifier::external_body]
pub(crate) fn set_insert(s: &mut IdSet, id: u64) -> (fresh: bool)
    ensures
        final(s)@ == old(s)@.insert(id),
        fresh == !old(s)@.contains(id),
{
    s.insert(id)
}

/// `HashSet::contains` on a set hashed by `FxBuildHasher`: whether the set
/// holds `id`.
#[verifier::external_body]
pub(crate) fn set_contains(s: &IdSet, id: u64) -> (found: bool)
    ensures
        found == s@.contains(id),
{
    s.contains(&id)
}

/// `HashSet::remove` on a set hashed by `FxBuildHasher`: afterwards the set holds
/// what it held but `id`, and the result says whether `id` was there.
#[verifier::external_body]
pub(crate) fn set_remove(s: &mut IdSet, id: u64) -> (found: bool)
    ensures
        final(s)@ == old(s)@.remove(id),
        found == old(s)@.contains(id),
{
    s.remove(&id)
}

/// `HashSet::clear` on a set hashed by `FxBuildHasher`: afterwards the set holds
/// nothing.
#[verifier::external_body]
pub(crate) fn set_clear(s: &mut IdSet)
    ensures
        final(s)@ == Set::<u64>::empty(),
{
    s.clear()
}

/// `HashSet::iter` on a set hashed by `FxBuildHasher`, collected: every item of
/// the set once, in an order of which nothing is said.
#[verifier::external_body]
pub(crate) fn set_items(s: &IdSet) -> (items: Vec<u64>)
    ensures
        items@.no_duplicates(),
        items@.to_set() == s@,
{
    s.iter().copied().collect()
}

/// The map without keys.
pub open spec fn no_entries() -> Map<u64, u64> {
    Map::empty()
}

/// `FxHashMap::default`: the new map holds nothing.
#[verifier::external_body]
pub(crate) fn map_new() -> (m: IdMap)
    ensures
        m@ == no_entries(),
{
    FxHashMap::default()
}

/// `HashMap::insert` on a map hashed by `FxBuildHasher`: afterwards `key` leads
/// to `value`, and every other key to what it led to.
#[verifier::external_body]
pub(crate) fn map_insert(m: &mut IdMap, key: u64, value: u64)
    ensures
        final(m)@ == old(m)@.insert(key, value),
{
    m.insert(key, value);
}

/// `HashMap::get` on a map hashed by `FxBuildHasher`, copied out: what `key`
/// leads to, if it leads anywhere.
#[verifier::external_body]
pub(crate) fn map_get(m: &IdMap, key: u64) -> (value: Option<u64>)
    ensures
        value == (if m@.contains_key(key) {
            Some(m@[key])
        } else {
            None
        }),
{
    m.get(&key).copied()
}

} // verus!
