//! The ordered map from workspace names to their states, held in an
//! `indexmap::IndexMap` with the FNV hasher.
use fnv::{FnvBuildHasher, FnvHasher};
use indexmap::IndexMap;
use std::hash::BuildHasherDefault;
use vstd::prelude::*;

use crate::hyprland::WorkspaceState;

verus! {

#[verifier::external_type_specification]
#[verifier::external_body]
#[verifier::reject_recursive_types(K)]
#[verifier::reject_recursive_types(V)]
#[verifier::reject_recursive_types(S)]
pub struct ExIndexMap<K, V, S>(IndexMap<K, V, S>);

#[verifier::external_type_specification]
#[verifier::external_body]
pub struct ExFnvHasher(FnvHasher);

#[verifier::external_type_specification]
#[verifier::external_body]
#[verifier::reject_recursive_types(H)]
pub struct ExBuildHasherDefault<H>(BuildHasherDefault<H>);

/// The entries of a workspace map: each name with its state, in the map's order.
pub uninterp spec fn workspace_entries(m: IndexMap<String, WorkspaceState, FnvBuildHasher>) -> Seq<(Seq<char>, WorkspaceState)>;

/// The names of a sequence of entries, in order.
pub open spec fn entry_keys(e: Seq<(Seq<char>, WorkspaceState)>) -> Seq<Seq<char>> {
    e.map_values(|p: (Seq<char>, WorkspaceState)| p.0)
}

/// Where `k` stands among the entries' names, if it does.
pub open spec fn key_index(e: Seq<(Seq<char>, WorkspaceState)>, k: Seq<char>) -> Option<int> {
    if exists|i: int| 0 <= i < e.len() && #[trigger] e[i].0 == k {
        Some(choose|i: int| 0 <= i < e.len() && #[trigger] e[i].0 == k)
    } else {
        None
    }
}

/// `IndexMap::with_capacity_and_hasher`, with room for ten workspaces and the
/// FNV hasher: the map it returns is empty.
#[verifier::external_body]
pub fn new_workspace_map() -> (m: IndexMap<String, WorkspaceState, FnvBuildHasher>)
    ensures
        workspace_entries(m) == Seq::<(Seq<char>, WorkspaceState)>::empty(),
{
    IndexMap::with_capacity_and_hasher(10, FnvBuildHasher::default())
}

/// `IndexMap::insert`: where the name is already a key, its value is
/// replaced in place; otherwise the pair is appended last.
#[verifier::external_body]
pub fn map_insert(m: &mut IndexMap<String, WorkspaceState, FnvBuildHasher>, key: String, value: WorkspaceState)
    ensures
        match key_index(workspace_entries(*old(m)), key@) {
            Some(i) => workspace_entries(*final(m)) == workspace_entries(*old(m)).update(i, (key@, value)),
            None => workspace_entries(*final(m)) == workspace_entries(*old(m)).push((key@, value)),
        },
{
    m.insert(key, value);
}

/// `IndexMap::get_index_of`: the position of the name among the keys, or
/// `None` where it is no key.
#[verifier::external_body]
pub fn map_index_of(m: &IndexMap<String, WorkspaceState, FnvBuildHasher>, key: &String) -> (r: Option<usize>)
    ensures
        match r {
            Some(i) => key_index(workspace_entries(*m), key@) == Some(i as int),
            None => key_index(workspace_entries(*m), key@) is None,
        },
{
    m.get_index_of(key)
}

/// `IndexMap::len`: the number of entries.
#[verifier::external_body]
pub fn map_len(m: &IndexMap<String, WorkspaceState, FnvBuildHasher>) -> (n: usize)
    ensures
        n == workspace_entries(*m).len(),
{
    m.len()
}

/// `IndexMap`'s `Index<usize>`: the value at a position.
#[verifier::external_body]
pub fn map_value_at(m: &IndexMap<String, WorkspaceState, FnvBuildHasher>, i: usize) -> (v: WorkspaceState)
    requires
        i < workspace_entries(*m).len(),
    ensures
        v == workspace_entries(*m)[i as int].1,
{
    m[i]
}

/// `IndexMap`'s `IndexMut<usize>`: the value at a position is replaced, the
/// key and every other entry stay.
#[verifier::external_body]
pub fn map_set_at(m: &mut IndexMap<String, WorkspaceState, FnvBuildHasher>, i: usize, v: WorkspaceState)
    requires
        i < workspace_entries(*old(m)).len(),
    ensures
        workspace_entries(*final(m)) == workspace_entries(*old(m)).update(
            i as int,
            (workspace_entries(*old(m))[i as int].0, v),
        ),
{
    m[i] = v;
}

} // verus!
