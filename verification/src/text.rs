use vstd::prelude::*;

verus! {

/// Compares two string slices character by character.
pub(crate) fn str_eq(a: &str, b: &str) -> (r: bool)
    ensures
        r == (a@ == b@),
{
    let x = a.to_owned();
    let y = b.to_owned();
    x == y
}

/// An owned copy of a string slice.
pub(crate) fn owned(s: &str) -> (r: String)
    ensures
        r@ == s@,
{
    s.to_owned()
}

/// The parts laid end to end with `sep` between each two of them.
pub open spec fn seq_join(parts: Seq<Seq<char>>, sep: Seq<char>) -> Seq<char>
    decreases parts.len(),
{
    if parts.len() == 0 {
        Seq::empty()
    } else if parts.len() == 1 {
        parts[0]
    } else {
        seq_join(parts.drop_last(), sep) + sep + parts.last()
    }
}

/// Calls `itertools::Itertools::intersperse` on the parts with `sep` and
/// collects the result into one string. The itertools documentation and
/// source show that `intersperse` yields the items of the iterator with a
/// clone of `sep` between each two consecutive items and nothing else, so the
/// collected string is the parts joined by `sep`.
#[verifier::external_body]
pub(crate) fn intersperse_collect(parts: &Vec<String>, sep: &str) -> (r: String)
    ensures
        r@ == seq_join(parts@.map_values(|v: String| v@), sep@),
{
    itertools::Itertools::intersperse(parts.iter().cloned(), sep.to_owned()).collect()
}

} // verus!
