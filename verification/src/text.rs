use vstd::prelude::*;
use vstd::string::StringExecFns;

verus! {

/// `text` with every occurrence of `from` replaced by `to`, the occurrences
/// being taken from the left and not overlapping. `from` is not empty.
pub open spec fn replaced(text: Seq<char>, from: Seq<char>, to: Seq<char>) -> Seq<char>
    decreases text.len(),
{
    if from.len() == 0 || text.len() < from.len() {
        text
    } else if text.subrange(0, from.len() as int) == from {
        to + replaced(text.skip(from.len() as int), from, to)
    } else {
        seq![text[0]] + replaced(text.skip(1), from, to)
    }
}

/// `str::replace` with a string as the pattern: every match of the pattern is
/// replaced, and the matches are the disjoint ones found from the left. The
/// pattern must not be empty.
#[verifier::external_body]
pub(crate) fn replace_text(text: &str, from: &str, to: &str) -> (changed: String)
    requires
        from@.len() > 0,
    ensures
        changed@ == replaced(text@, from@, to@),
{
    text.replace(from, to)
}

/// Whether a character is white space, as `char::is_whitespace` tells: whether
/// it has the Unicode property White_Space.
pub uninterp spec fn white(c: char) -> bool;

/// A text without the white space at its end: what is left when its last
/// character is taken off for as long as that character is white space.
pub open spec fn trimmed_end(text: Seq<char>) -> Seq<char>
    decreases text.len(),
{
    if text.len() == 0 || !white(text.last()) {
        text
    } else {
        trimmed_end(text.drop_last())
    }
}

/// `str::trim_end`: the string without the white space at its end, white
/// space being what `char::is_whitespace` tells. The result ends in no white
/// space, and what was cut is white space only.
#[verifier::external_body]
pub(crate) fn trim_end(text: &str) -> (cut: &str)
    ensures
        cut@ == trimmed_end(text@),
        cut@.len() > 0 ==> !white(cut@.last()),
{
    text.trim_end()
}

/// The texts one after the other.
pub open spec fn joined(parts: Seq<Seq<char>>) -> Seq<char>
    decreases parts.len(),
{
    if parts.len() == 0 {
        Seq::empty()
    } else {
        joined(parts.drop_last()) + parts.last()
    }
}

/// What each of the strings holds.
pub open spec fn texts(parts: Seq<&str>) -> Seq<Seq<char>> {
    Seq::new(parts.len(), |i: int| parts[i]@)
}

/// Writes the texts one after the other.
pub fn join(parts: &Vec<&str>) -> (whole: String)
    ensures
        whole@ == joined(texts(parts@)),
{
    let mut whole = String::new();
    let mut i: usize = 0;
    let ghost all = texts(parts@);
    while i < parts.len()
        invariant
            i <= parts@.len(),
            all == texts(parts@),
            whole@ == joined(all.take(i as int)),
        decreases parts@.len() - i,
    {
        whole.append(parts[i]);
        proof {
            let longer = all.take(i + 1);
            assert(longer.drop_last() =~= all.take(i as int));
            assert(longer.last() == parts@[i as int]@);
        }
        i = i + 1;
    }
    assert(all.take(i as int) =~= all);
    whole
}

/// The last character of a text, if it has one.
pub fn last_char(text: &str) -> (last: Option<char>)
    ensures
        last == (if text@.len() == 0 {
            None
        } else {
            Some(text@.last())
        }),
{
    let n = text.unicode_len();
    if n == 0 {
        None
    } else {
        Some(text.get_char(n - 1))
    }
}

} // verus!
