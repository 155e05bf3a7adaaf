use vstd::prelude::*;
use indexmap::IndexMap;
use crate::types::{CDDAIdentifier, ParameterIdentifier};

verus! {

/// `indexmap::IndexMap`, the insertion-ordered hash map that holds the
/// calculated values of mapgen parameters.
#[verifier::external_type_specification]
#[verifier::external_body]
#[verifier::reject_recursive_types(K)]
#[verifier::reject_recursive_types(V)]
#[verifier::reject_recursive_types(S)]
pub struct ExIndexMap<K, V, S>(IndexMap<K, V, S>);

/// The entries of a map of calculated parameters, in the map's order, each
/// key and value taken by its text.
pub uninterp spec fn parameter_entries(m: IndexMap<ParameterIdentifier, CDDAIdentifier>) -> Seq<(Seq<char>, Seq<char>)>;

/// The position of the first entry with key `k`, or the length when there is none.
pub open spec fn entry_position(entries: Seq<(Seq<char>, Seq<char>)>, k: Seq<char>) -> int
    decreases entries.len(),
{
    if entries.len() == 0 {
        0
    } else if entries[0].0 == k {
        0
    } else {
        1 + entry_position(entries.drop_first(), k)
    }
}

/// The value of the first entry with key `k`.
pub open spec fn entry_lookup(entries: Seq<(Seq<char>, Seq<char>)>, k: Seq<char>) -> Option<Seq<char>> {
    let i = entry_position(entries, k);
    if i < entries.len() {
        Some(entries[i].1)
    } else {
        None
    }
}

/// Setting `k` to `v`: an entry with key `k` keeps its place and takes the
/// new value, otherwise the pair is appended.
pub open spec fn entry_insert(entries: Seq<(Seq<char>, Seq<char>)>, k: Seq<char>, v: Seq<char>) -> Seq<(Seq<char>, Seq<char>)> {
    let i = entry_position(entries, k);
    if i < entries.len() {
        entries.update(i, (k, v))
    } else {
        entries.push((k, v))
    }
}

pub proof fn lemma_entry_position_bounds(entries: Seq<(Seq<char>, Seq<char>)>, k: Seq<char>)
    ensures
        0 <= entry_position(entries, k) <= entries.len(),
        entry_position(entries, k) < entries.len() ==> entries[entry_position(entries, k)].0 == k,
        forall|j: int| 0 <= j < entry_position(entries, k) ==> #[trigger] entries[j].0 != k,
    decreases entries.len(),
{
    if entries.len() > 0 && entries[0].0 != k {
        lemma_entry_position_bounds(entries.drop_first(), k);
        assert forall|j: int| 0 <= j < entry_position(entries, k) implies #[trigger] entries[j].0 != k by {
            if j > 0 {
                assert(entries[j] == entries.drop_first()[j - 1]);
            }
        }
    }
}

/// `IndexMap::new`: a map without entries.
#[verifier::external_body]
pub fn new_calculated_parameters() -> (m: IndexMap<ParameterIdentifier, CDDAIdentifier>)
    ensures
        parameter_entries(m) == Seq::<(Seq<char>, Seq<char>)>::empty(),
{
    IndexMap::new()
}

/// `IndexMap::get`: the value of the entry whose key equals `k` (keys are
/// compared by their derived `Eq`, that is by their text).
#[verifier::external_body]
pub(crate) fn calculated_parameter<'a>(
    m: &'a IndexMap<ParameterIdentifier, CDDAIdentifier>,
    k: &ParameterIdentifier,
) -> (r: Option<&'a CDDAIdentifier>)
    ensures
        r is Some <==> entry_lookup(parameter_entries(*m), k@) is Some,
        r matches Some(v) ==> entry_lookup(parameter_entries(*m), k@) == Some(v@),
{
    m.get(k)
}

/// `IndexMap::insert`: an existing key keeps its place and takes the new
/// value; a new key is appended last.
#[verifier::external_body]
pub(crate) fn set_calculated_parameter(
    m: &mut IndexMap<ParameterIdentifier, CDDAIdentifier>,
    k: ParameterIdentifier,
    v: CDDAIdentifier,
)
    ensures
        parameter_entries(*final(m)) == entry_insert(parameter_entries(*old(m)), k@, v@),
{
    m.insert(k, v);
}


/// The entries of the map in its order (`IndexMap`'s owning iterator, which
/// yields the entries in the order of the map).
#[verifier::external_body]
pub(crate) fn parameter_pairs(m: IndexMap<ParameterIdentifier, CDDAIdentifier>) -> (r: Vec<(ParameterIdentifier, CDDAIdentifier)>)
    ensures
        r@.len() == parameter_entries(m).len(),
        forall|i: int| 0 <= i < r@.len() ==> (#[trigger] r@[i].0@, r@[i].1@) == parameter_entries(m)[i],
{
    m.into_iter().collect()
}

} // verus!
