use vstd::prelude::*;

verus! {

#[verifier::external_type_specification]
#[verifier::external_body]
#[verifier::reject_recursive_types(K)]
#[verifier::reject_recursive_types(V)]
#[verifier::reject_recursive_types(S)]
pub struct ExLinkedHashMap<K, V, S>(linked_hash_map::LinkedHashMap<K, V, S>);

/// The key-value pairs the map holds, oldest first — insertion order, which
/// the map preserves — with each value as its character sequence.
pub uninterp spec fn map_entries(m: linked_hash_map::LinkedHashMap<usize, String>) -> Seq<
    (usize, Seq<char>),
>;

/// Relies on `linked_hash_map::LinkedHashMap::new`: the new map holds
/// nothing.
#[verifier::external_body]
pub(crate) fn results_new() -> (m: linked_hash_map::LinkedHashMap<usize, String>)
    ensures
        map_entries(m) == Seq::<(usize, Seq<char>)>::empty(),
{
    linked_hash_map::LinkedHashMap::new()
}

/// Relies on `linked_hash_map::LinkedHashMap::insert`: entries sit in
/// insertion order, so inserting a key the map does not yet hold appends the
/// pair at the back and displaces nothing.
#[verifier::external_body]
pub(crate) fn results_insert(
    m: &mut linked_hash_map::LinkedHashMap<usize, String>,
    k: usize,
    v: String,
)
    requires
        forall|j: int| 0 <= j < map_entries(*old(m)).len() ==> map_entries(*old(m))[j].0 != k,
    ensures
        map_entries(*final(m)) == map_entries(*old(m)).push((k, v@)),
{
    m.insert(k, v);
}

/// Relies on `linked_hash_map::LinkedHashMap::len`: the number of pairs the
/// map holds.
#[verifier::external_body]
pub(crate) fn results_len(m: &linked_hash_map::LinkedHashMap<usize, String>) -> (n: usize)
    ensures
        n == map_entries(*m).len(),
{
    m.len()
}

} // verus!
