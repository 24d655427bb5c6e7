use vstd::prelude::*;

verus! {

/// What lies above an expression, as far as the safety of its region goes.
#[derive(Clone, Copy, Debug, PartialEq, Eq, Structural)]
pub enum Ancestor {
    /// The function that holds the expression; the flag says that it is an
    /// unsafe function.
    Function(bool),
    /// A block; the flag says that it is an unsafe block.
    Block(bool),
    /// Anything else.
    Other,
}

/// Whether an expression with these ancestors, the nearest first, lies in an
/// unsafe region: the nearest unsafe block or function decides, and nothing
/// above the function counts.
pub open spec fn in_unsafe_region(ancestors: Seq<Ancestor>) -> bool
    decreases ancestors.len(),
{
    if ancestors.len() == 0 {
        false
    } else {
        match ancestors[0] {
            Ancestor::Function(is_unsafe) => is_unsafe,
            Ancestor::Block(true) => true,
            _ => in_unsafe_region(ancestors.drop_first()),
        }
    }
}

/// Whether an expression with these ancestors, the nearest first, lies in an
/// unsafe region.
pub fn is_in_unsafe_block(ancestors: &Vec<Ancestor>) -> (found: bool)
    ensures
        found == in_unsafe_region(ancestors@),
{
    let mut i: usize = 0;
    assert(ancestors@.skip(0) =~= ancestors@);
    while i < ancestors.len()
        invariant
            i <= ancestors@.len(),
            in_unsafe_region(ancestors@) == in_unsafe_region(ancestors@.skip(i as int)),
        decreases ancestors@.len() - i,
    {
        proof {
            let rest = ancestors@.skip(i as int);
            assert(rest[0] == ancestors@[i as int]);
            assert(rest.drop_first() =~= ancestors@.skip(i + 1));
        }
        match ancestors[i] {
            Ancestor::Function(is_unsafe) => {
                return is_unsafe;
            },
            Ancestor::Block(true) => {
                return true;
            },
            _ => {},
        }
        i = i + 1;
    }
    false
}

/// Nothing above the nearest function changes the answer.
pub proof fn lemma_function_bounds_region(below: Seq<Ancestor>, is_unsafe: bool, above: Seq<Ancestor>)
    ensures
        in_unsafe_region(below + seq![Ancestor::Function(is_unsafe)] + above) == in_unsafe_region(
            below + seq![Ancestor::Function(is_unsafe)],
        ),
    decreases below.len(),
{
    let short = below + seq![Ancestor::Function(is_unsafe)];
    let long = short + above;
    assert(long[0] == short[0]);
    if below.len() > 0 {
        assert(short.drop_first() =~= below.drop_first() + seq![Ancestor::Function(is_unsafe)]);
        assert(long.drop_first() =~= below.drop_first() + seq![Ancestor::Function(is_unsafe)]
            + above);
        lemma_function_bounds_region(below.drop_first(), is_unsafe, above);
    }
}

} // verus!
