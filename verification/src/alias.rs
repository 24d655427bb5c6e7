use crate::idset::map_get;
use crate::idset::map_insert;
use crate::idset::map_new;
use crate::idset::IdMap;
use vstd::prelude::*;

verus! {

/// `to` is reached from `from` by following exactly `steps` edges of `m`.
pub open spec fn reaches(m: Map<u64, u64>, from: u64, to: u64, steps: nat) -> bool
    decreases steps,
{
    if steps == 0 {
        from == to
    } else {
        m.contains_key(from) && reaches(m, m[from], to, (steps - 1) as nat)
    }
}

/// `to` is `from` itself or is reached from it along the edges of `m`.
pub open spec fn linked(m: Map<u64, u64>, from: u64, to: u64) -> bool {
    exists|n: nat| reaches(m, from, to, n)
}

/// `to` is reached from `from` along at least one edge of `m`.
pub open spec fn linked_beyond(m: Map<u64, u64>, from: u64, to: u64) -> bool {
    exists|n: nat| n > 0 && reaches(m, from, to, n)
}

/// Everything that `from` stands for: itself and whatever its edges lead to.
pub open spec fn chain(m: Map<u64, u64>, from: u64) -> Set<u64> {
    Set::new(|b: u64| linked(m, from, b))
}

/// `rank` falls along every edge of `m`.
pub open spec fn ranked(m: Map<u64, u64>, rank: spec_fn(u64) -> nat) -> bool {
    forall|k: u64| m.contains_key(k) ==> rank(#[trigger] m[k]) < rank(k)
}

/// No walk along the edges of `m` goes on for ever: some rank falls along every
/// edge.
pub open spec fn acyclic(m: Map<u64, u64>) -> bool {
    exists|rank: spec_fn(u64) -> nat| ranked(m, rank)
}

/// What the edges become when `alias` is to stand for `target`: an edge that
/// would close a cycle is left out.
pub open spec fn with_alias(m: Map<u64, u64>, alias: u64, target: u64) -> Map<u64, u64> {
    if linked(m, target, alias) {
        m
    } else {
        m.insert(alias, target)
    }
}

/// A walk of `n` edges loses at least `n` of rank.
pub proof fn lemma_rank_falls(
    m: Map<u64, u64>,
    rank: spec_fn(u64) -> nat,
    from: u64,
    to: u64,
    n: nat,
)
    requires
        ranked(m, rank),
        reaches(m, from, to, n),
    ensures
        rank(to) + n <= rank(from),
    decreases n,
{
    if n > 0 {
        lemma_rank_falls(m, rank, m[from], to, (n - 1) as nat);
    }
}

/// In an acyclic graph no walk of one edge or more returns to its start.
pub proof fn lemma_no_cycle(m: Map<u64, u64>, at: u64, n: nat)
    requires
        acyclic(m),
        n > 0,
    ensures
        !reaches(m, at, at, n),
{
    let rank = choose|rank: spec_fn(u64) -> nat| ranked(m, rank);
    if reaches(m, at, at, n) {
        lemma_rank_falls(m, rank, at, at, n);
    }
}

/// A walk can be entered one edge earlier.
pub proof fn lemma_linked_step(m: Map<u64, u64>, from: u64, to: u64)
    requires
        m.contains_key(from),
        linked(m, m[from], to),
    ensures
        linked_beyond(m, from, to),
        linked(m, from, to),
{
    let n = choose|n: nat| reaches(m, m[from], to, n);
    assert(reaches(m, from, to, n + 1));
}

/// Every node is linked to itself.
pub proof fn lemma_linked_self(m: Map<u64, u64>, at: u64)
    ensures
        linked(m, at, at),
{
    assert(reaches(m, at, at, 0));
}

/// What a node stands for is the node and what its edge's end stands for.
pub proof fn lemma_chain_unfold(m: Map<u64, u64>, from: u64)
    ensures
        m.contains_key(from) ==> chain(m, from) == chain(m, m[from]).insert(from),
        !m.contains_key(from) ==> chain(m, from) == Set::<u64>::empty().insert(from),
{
    lemma_linked_self(m, from);
    if m.contains_key(from) {
        let next = m[from];
        assert forall|b: u64| chain(m, from).contains(b) <==> chain(m, next).insert(
            from,
        ).contains(b) by {
            if linked(m, from, b) && b != from {
                let n = choose|n: nat| reaches(m, from, b, n);
                assert(reaches(m, next, b, (n - 1) as nat));
            }
            if linked(m, next, b) {
                lemma_linked_step(m, from, b);
            }
        }
        assert(chain(m, from) =~= chain(m, next).insert(from));
    } else {
        assert forall|b: u64| chain(m, from).contains(b) <==> b == from by {
            if linked(m, from, b) {
                let n = choose|n: nat| reaches(m, from, b, n);
                assert(n == 0);
            }
        }
        assert(chain(m, from) =~= Set::<u64>::empty().insert(from));
    }
}

/// An edge that would close no cycle keeps the graph acyclic.
pub proof fn lemma_with_alias_acyclic(m: Map<u64, u64>, alias: u64, target: u64)
    requires
        acyclic(m),
    ensures
        acyclic(with_alias(m, alias, target)),
{
    if !linked(m, target, alias) {
        let rank = choose|rank: spec_fn(u64) -> nat| ranked(m, rank);
        let lifted = |k: u64| -> nat {
            if linked(m, k, alias) {
                rank(k) + rank(target) + 1
            } else {
                rank(k)
            }
        };
        let grown = m.insert(alias, target);
        lemma_linked_self(m, alias);
        assert forall|k: u64| grown.contains_key(k) implies lifted(#[trigger] grown[k]) < lifted(
            k,
        ) by {
            if k == alias {
                assert(grown[k] == target);
            } else {
                assert(grown[k] == m[k]);
                assert(rank(m[k]) < rank(k));
                if linked(m, m[k], alias) {
                    lemma_linked_step(m, k, alias);
                }
            }
        }
        assert(ranked(grown, lifted));
    }
}

/// The table of rebindings: an edge leads from a binding to the binding that it
/// was initialised from.
pub struct AliasGraph {
    edges: IdMap,
}

impl View for AliasGraph {
    type V = Map<u64, u64>;

    closed spec fn view(&self) -> Map<u64, u64> {
        self.edges@
    }
}

impl AliasGraph {
    /// The graph holds no cycle.
    pub open spec fn wf(&self) -> bool {
        acyclic(self@)
    }

    /// A graph without edges.
    pub fn new() -> (g: AliasGraph)
        ensures
            g@ == Map::<u64, u64>::empty(),
            g.wf(),
    {
        let g = AliasGraph { edges: map_new() };
        proof {
            let flat = |k: u64| -> nat { 0 };
            assert(ranked(g@, flat));
        }
        g
    }

    /// The binding that `id` was initialised from, if it is a rebinding.
    pub fn target(&self, id: u64) -> (t: Option<u64>)
        ensures
            t == (if self@.contains_key(id) {
                Some(self@[id])
            } else {
                None
            }),
    {
        map_get(&self.edges, id)
    }

    /// Whether `alias` lies on the way that starts at the edge of `target`.
    pub fn would_be_alias_cycle(&self, alias: u64, target: u64) -> (cycle: bool)
        requires
            self.wf(),
        ensures
            cycle == linked_beyond(self@, target, alias),
    {
        let ghost rank = choose|rank: spec_fn(u64) -> nat| ranked(self@, rank);
        let mut at = target;
        let mut next = map_get(&self.edges, at);
        while next.is_some()
            invariant
                ranked(self@, rank),
                next == (if self@.contains_key(at) {
                    Some(self@[at])
                } else {
                    None
                }),
                linked_beyond(self@, target, alias) == linked_beyond(self@, at, alias),
            decreases rank(at),
        {
            let id = next.unwrap();
            if id == alias {
                proof {
                    assert(reaches(self@, id, alias, 0));
                    assert(reaches(self@, at, alias, 1));
                }
                return true;
            }
            proof {
                if linked_beyond(self@, at, alias) {
                    let n = choose|n: nat| n > 0 && reaches(self@, at, alias, n);
                    assert(reaches(self@, id, alias, (n - 1) as nat));
                    assert(n != 1);
                    assert(linked_beyond(self@, id, alias));
                }
                if linked_beyond(self@, id, alias) {
                    let n = choose|n: nat| n > 0 && reaches(self@, id, alias, n);
                    assert(reaches(self@, at, alias, n + 1));
                }
            }
            at = id;
            next = map_get(&self.edges, at);
        }
        proof {
            if linked_beyond(self@, at, alias) {
                let n = choose|n: nat| n > 0 && reaches(self@, at, alias, n);
                assert(false);
            }
        }
        false
    }

    /// Lets `alias` stand for `target`, unless the edge would close a cycle.
    pub fn add_alias(&mut self, alias: u64, target: u64)
        requires
            old(self).wf(),
        ensures
            final(self).wf(),
            final(self)@ == with_alias(old(self)@, alias, target),
    {
        proof {
            lemma_with_alias_acyclic(self@, alias, target);
            if linked(self@, target, alias) && alias != target {
                let n = choose|n: nat| reaches(self@, target, alias, n);
                assert(n > 0);
            }
            if alias == target {
                lemma_linked_self(self@, alias);
            }
        }
        if alias == target || self.would_be_alias_cycle(alias, target) {
            return ;
        }
        map_insert(&mut self.edges, alias, target);
    }
}

} // verus!
