//! Frequency counting through the `counter` crate.

use counter::Counter;
use vstd::multiset::Multiset;
use vstd::prelude::*;

verus! {

#[verifier::external_type_specification]
#[verifier::external_body]
#[verifier::reject_recursive_types(T)]
#[verifier::reject_recursive_types(N)]
#[verifier::reject_recursive_types(S)]
pub struct ExCounter<T, N, S>(Counter<T, N, S>);

/// How often each code was counted.
pub uninterp spec fn code_tally(c: Counter<u8>) -> Multiset<u8>;

/// How often each name was counted.
pub uninterp spec fn name_tally(c: Counter<String>) -> Multiset<Seq<char>>;

/// Relies on `Counter`'s `FromIterator`, which adds one to an item's count
/// for each time it occurs.
#[verifier::external_body]
pub(crate) fn tally_codes(v: &Vec<u8>) -> (r: Counter<u8>)
    ensures
        code_tally(r) == v@.to_multiset(),
{
    v.iter().copied().collect()
}

/// Relies on `Counter::k_most_common_ordered(1)`: the item of highest count,
/// the smallest such item where counts tie, and nothing for an empty counter.
#[verifier::external_body]
pub(crate) fn most_common_code(c: &Counter<u8>) -> (r: Option<u8>)
    ensures
        r is None <==> code_tally(*c).len() == 0,
        r matches Some(k) ==> code_tally(*c).count(k) > 0,
        r matches Some(k) ==> forall|j: u8| #[trigger]
            code_tally(*c).count(j) <= code_tally(*c).count(k),
        r matches Some(k) ==> forall|j: u8| #[trigger]
            code_tally(*c).count(j) == code_tally(*c).count(k) ==> k <= j,
{
    c.k_most_common_ordered(1).first().map(|p| p.0)
}

/// Relies on `Counter`'s `FromIterator`, which adds one to an item's count
/// for each time it occurs.
#[verifier::external_body]
pub(crate) fn tally_names(v: &Vec<String>) -> (r: Counter<String>)
    ensures
        name_tally(r) == v@.map_values(|s: String| s@).to_multiset(),
{
    v.iter().cloned().collect()
}

/// Relies on `Counter`'s `Index`, which gives an item's count, zero for an
/// item never counted.
#[verifier::external_body]
pub(crate) fn name_count(c: &Counter<String>, s: &String) -> (r: usize)
    ensures
        r as nat == name_tally(*c).count(s@),
{
    c[s]
}

} // verus!
