use vstd::prelude::*;

verus! {

/// What the type oracle reports of one type.
#[derive(Clone, Copy, Debug, PartialEq, Eq, Structural)]
pub struct TypeCapability {
    /// Values may be copied bit for bit.
    pub duplicable: bool,
    /// Values may be moved to another executor.
    pub thread_transferable: bool,
    /// Values may be read through a shared reference by several executors.
    pub thread_shareable: bool,
}

impl TypeCapability {
    /// A type may cross the concurrency boundary when it is duplicable, or both
    /// transferable and shareable.
    pub open spec fn parallel_safe(self) -> bool {
        self.duplicable || (self.thread_transferable && self.thread_shareable)
    }

    pub fn is_parallel_safe(&self) -> (safe: bool)
        ensures
            safe == self.parallel_safe(),
    {
        self.duplicable || (self.thread_transferable && self.thread_shareable)
    }
}

/// The answers among the first `n` entries, a later entry replacing an earlier
/// one for the same type.
pub open spec fn answers(entries: Seq<(u64, TypeCapability)>, n: nat) -> Map<u64, TypeCapability>
    decreases n,
{
    if n == 0 || n > entries.len() {
        Map::empty()
    } else {
        answers(entries, (n - 1) as nat).insert(entries[n - 1].0, entries[n - 1].1)
    }
}

/// A type that no entry from `from` on names has the answer that the entries
/// before `from` give it.
proof fn lemma_answers_skip(entries: Seq<(u64, TypeCapability)>, from: nat, n: nat, ty: u64)
    requires
        from <= n <= entries.len(),
        forall|j: int| from <= j < n ==> (#[trigger] entries[j]).0 != ty,
    ensures
        answers(entries, n).contains_key(ty) == answers(entries, from).contains_key(ty),
        answers(entries, n).contains_key(ty) ==> answers(entries, n)[ty] == answers(
            entries,
            from,
        )[ty],
    decreases n,
{
    if n > from {
        lemma_answers_skip(entries, from, (n - 1) as nat, ty);
    }
}

/// The answers that the type oracle has given so far, by type. A type without
/// an answer is one that the oracle could not resolve.
pub struct TypeOracle {
    entries: Vec<(u64, TypeCapability)>,
}

impl View for TypeOracle {
    type V = Map<u64, TypeCapability>;

    closed spec fn view(&self) -> Map<u64, TypeCapability> {
        answers(self.entries@, self.entries@.len())
    }
}

/// Whether the answers allow values of type `ty` to cross the concurrency
/// boundary. An unresolved type does not.
pub open spec fn type_is_safe(answers: Map<u64, TypeCapability>, ty: u64) -> bool {
    answers.contains_key(ty) && answers[ty].parallel_safe()
}

impl TypeOracle {
    /// An oracle that has resolved no type.
    pub fn new() -> (oracle: TypeOracle)
        ensures
            oracle@ == Map::<u64, TypeCapability>::empty(),
    {
        TypeOracle { entries: Vec::new() }
    }

    /// Records the oracle's answer for `ty`, in place of an earlier one.
    pub fn record(&mut self, ty: u64, capability: TypeCapability)
        ensures
            final(self)@ == old(self)@.insert(ty, capability),
    {
        self.entries.push((ty, capability));
        proof {
            let before = old(self).entries@;
            let after = self.entries@;
            assert(after.len() == before.len() + 1);
            lemma_answers_prefix(before, after, before.len());
        }
    }

    /// The answer for `ty`, if the oracle resolved it.
    pub fn capability(&self, ty: u64) -> (found: Option<TypeCapability>)
        ensures
            found == (if self@.contains_key(ty) {
                Some(self@[ty])
            } else {
                None
            }),
    {
        let mut i: usize = self.entries.len();
        while i > 0
            invariant
                i <= self.entries@.len(),
                forall|j: int| i <= j < self.entries@.len() ==> (#[trigger] self.entries@[j]).0 != ty,
            decreases i,
        {
            i = i - 1;
            if self.entries[i].0 == ty {
                proof {
                    lemma_answers_skip(
                        self.entries@,
                        (i + 1) as nat,
                        self.entries@.len(),
                        ty,
                    );
                }
                return Some(self.entries[i].1);
            }
        }
        proof {
            lemma_answers_skip(self.entries@, 0, self.entries@.len(), ty);
        }
        None
    }

    /// Whether values of type `ty` may cross the concurrency boundary.
    pub fn is_type_valid(&self, ty: u64) -> (safe: bool)
        ensures
            safe == type_is_safe(self@, ty),
    {
        match self.capability(ty) {
            Some(capability) => capability.is_parallel_safe(),
            None => false,
        }
    }
}

/// The answers among the first `n` entries do not depend on later entries.
proof fn lemma_answers_prefix(
    short: Seq<(u64, TypeCapability)>,
    long: Seq<(u64, TypeCapability)>,
    n: nat,
)
    requires
        n <= short.len() <= long.len(),
        forall|j: int| 0 <= j < short.len() ==> short[j] == long[j],
    ensures
        answers(short, n) == answers(long, n),
    decreases n,
{
    if n > 0 {
        lemma_answers_prefix(short, long, (n - 1) as nat);
    }
}

} // verus!
