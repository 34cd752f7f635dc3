//! The server's table of live connections: a `bimap::BiHashMap` from usernames to
//! connection ids, seen from the verified code through the wrappers below.
use bimap::BiHashMap;
use vstd::prelude::*;

verus! {

/// `bimap::BiHashMap`, carried through as an opaque value.
#[verifier::external_type_specification]
#[verifier::external_body]
#[verifier::reject_recursive_types(L)]
#[verifier::reject_recursive_types(R)]
#[verifier::reject_recursive_types(LS)]
#[verifier::reject_recursive_types(RS)]
pub struct ExBiHashMap<L, R, LS, RS>(BiHashMap<L, R, LS, RS>);

/// The pairs a bimap of usernames and connection ids holds, as a map from username to id.
pub uninterp spec fn connection_pairs(m: BiHashMap<String, usize>) -> Map<Seq<char>, usize>;

/// The map without the pairs whose value is `id`.
pub open spec fn without_id(m: Map<Seq<char>, usize>, id: usize) -> Map<Seq<char>, usize> {
    Map::new(|k: Seq<char>| m.dom().contains(k) && m[k] != id, |k: Seq<char>| m[k])
}

/// Calls `BiHashMap::new`, which makes a bimap holding no pairs.
#[verifier::external_body]
pub(crate) fn connections_new() -> (conns: BiHashMap<String, usize>)
    ensures
        connection_pairs(conns).dom() == Set::<Seq<char>>::empty(),
{
    BiHashMap::new()
}

/// Calls `BiHashMap::contains_left`: whether some pair has this username on the left.
#[verifier::external_body]
pub(crate) fn connections_contains_left(m: &BiHashMap<String, usize>, name: &String) -> (found: bool)
    ensures
        found == connection_pairs(*m).dom().contains(name@),
{
    m.contains_left(name)
}

/// Calls `BiHashMap::contains_right`: whether some pair has this id on the right.
#[verifier::external_body]
pub(crate) fn connections_contains_right(m: &BiHashMap<String, usize>, id: usize) -> (found: bool)
    ensures
        found == connection_pairs(*m).contains_value(id),
{
    m.contains_right(&id)
}

/// Calls `BiHashMap::get_by_right` and clones the username found: the left value of the pair
/// whose right value is `id`, or `None` when there is no such pair.
#[verifier::external_body]
pub(crate) fn connections_get_by_right(m: &BiHashMap<String, usize>, id: usize) -> (name: Option<String>)
    ensures
        match name {
            Some(n) => connection_pairs(*m).dom().contains(n@) && connection_pairs(*m)[n@] == id,
            None => !connection_pairs(*m).contains_value(id),
        },
{
    m.get_by_right(&id).cloned()
}

/// Calls `BiHashMap::insert`: any pair with this username and any pair with this id are
/// removed, then the new pair is added. What it reports as overwritten is dropped.
#[verifier::external_body]
pub(crate) fn connections_insert(m: &mut BiHashMap<String, usize>, name: String, id: usize)
    ensures
        connection_pairs(*final(m)) == without_id(connection_pairs(*old(m)).remove(name@), id).insert(
            name@,
            id,
        ),
{
    m.insert(name, id);
}

/// Calls `BiHashMap::remove_by_right`: the pair whose right value is `id`, if any, is removed.
/// The removed pair that it returns is dropped.
#[verifier::external_body]
pub(crate) fn connections_remove_by_right(m: &mut BiHashMap<String, usize>, id: usize)
    ensures
        connection_pairs(*final(m)) == without_id(connection_pairs(*old(m)), id),
{
    m.remove_by_right(&id);
}

/// Calls `BiHashMap::iter`, cloning each username: every pair comes out exactly once,
/// in an order that the hashing decides and that is left open here.
#[verifier::external_body]
pub(crate) fn connections_entries(m: &BiHashMap<String, usize>) -> (entries: Vec<(String, usize)>)
    ensures
        forall|i: int|
            0 <= i < entries.len() ==> {
                &&& connection_pairs(*m).dom().contains((#[trigger] entries@[i]).0@)
                &&& connection_pairs(*m)[entries@[i].0@] == entries@[i].1
            },
        forall|k: Seq<char>|
            connection_pairs(*m).dom().contains(k) ==> exists|i: int|
                0 <= i < entries.len() && (#[trigger] entries@[i]).0@ == k,
        forall|i: int, j: int|
            0 <= i < j < entries.len() ==> (#[trigger] entries@[i]).0@ != (#[trigger] entries@[j]).0@,
{
    m.iter().map(|(name, id)| (name.clone(), *id)).collect()
}

} // verus!
