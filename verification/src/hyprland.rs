//! The workspace indicator of the bar: which of the configured workspaces
//! are active, occupied or empty.
use fnv::FnvBuildHasher;
use indexmap::IndexMap;
use vstd::prelude::*;

use crate::workspace_map::{
    entry_keys, key_index, map_index_of, map_insert, map_len, map_set_at, map_value_at, new_workspace_map,
    workspace_entries,
};

verus! {

/// The state shown for one workspace.
#[derive(Clone, Copy, Debug, PartialEq, Eq, Structural)]
pub enum WorkspaceState {
    Inactive,
    Active,
    Occupied,
}

/// One workspace as the compositor reports it: its name and how many
/// windows it holds.
#[derive(Clone, Debug)]
pub struct WorkspaceInfo {
    pub name: String,
    pub windows: u16,
}

/// What the compositor reports at one moment: every workspace and the name
/// of the active one.
#[derive(Clone, Debug)]
pub struct WorkspaceSnapshot {
    pub workspaces: Vec<WorkspaceInfo>,
    pub active: String,
}

/// The events of the workspace indicator: the compositor's workspaces
/// changed, and this is what it reports now.
#[derive(Clone, Debug)]
pub enum Message {
    WorkspaceChanged(WorkspaceSnapshot),
}

/// Whether the snapshot reports a workspace named `name` with windows on it.
pub open spec fn is_occupied(ws: Seq<WorkspaceInfo>, name: Seq<char>) -> bool {
    exists|i: int| 0 <= i < ws.len() && #[trigger] ws[i].name@ == name && ws[i].windows > 0
}

/// The state of the workspace `name` after a check against a snapshot.
pub open spec fn checked_state(name: Seq<char>, snapshot: WorkspaceSnapshot) -> WorkspaceState {
    if name == snapshot.active@ {
        WorkspaceState::Active
    } else if is_occupied(snapshot.workspaces@, name) {
        WorkspaceState::Occupied
    } else {
        WorkspaceState::Inactive
    }
}

/// The entries for the names `keys`, in their order, each with its state
/// after a check against the snapshot.
pub open spec fn checked_entries(keys: Seq<Seq<char>>, snapshot: WorkspaceSnapshot) -> Seq<(Seq<char>, WorkspaceState)> {
    Seq::new(keys.len(), |j: int| (keys[j], checked_state(keys[j], snapshot)))
}

/// The names in order of first appearance, each once.
pub open spec fn first_occurrences(names: Seq<Seq<char>>) -> Seq<Seq<char>>
    decreases names.len(),
{
    if names.len() == 0 {
        Seq::empty()
    } else {
        let prev = first_occurrences(names.drop_last());
        if prev.contains(names.last()) {
            prev
        } else {
            prev.push(names.last())
        }
    }
}

/// The views of a vector of strings.
pub open spec fn string_views(v: Seq<String>) -> Seq<Seq<char>> {
    v.map_values(|s: String| s@)
}

pub struct Hyprland {
    workspaces: IndexMap<String, WorkspaceState, FnvBuildHasher>,
}

impl View for Hyprland {
    type V = Seq<(Seq<char>, WorkspaceState)>;

    closed spec fn view(&self) -> Seq<(Seq<char>, WorkspaceState)> {
        workspace_entries(self.workspaces)
    }
}

impl Hyprland {
    /// The names are distinct, as in every map.
    pub open spec fn wf(&self) -> bool {
        entry_keys(self@).no_duplicates()
    }

    /// The indicator for the configured workspace names, in their order
    /// (a repeated name counts once), checked against the snapshot.
    pub fn new(workspaces: &Vec<String>, snapshot: &WorkspaceSnapshot) -> (s: Self)
        ensures
            s.wf(),
            s@ == checked_entries(first_occurrences(string_views(workspaces@)), *snapshot),
    {
        let mut hm = new_workspace_map();
        let n = workspaces.len();
        let ghost names = string_views(workspaces@);
        for i in 0..n
            invariant
                n == workspaces.len(),
                names == string_views(workspaces@),
                entry_keys(workspace_entries(hm)) == first_occurrences(names.take(i as int)),
                entry_keys(workspace_entries(hm)).no_duplicates(),
        {
            let ghost before = workspace_entries(hm);
            let name = workspaces[i].clone();
            map_insert(&mut hm, name, WorkspaceState::Inactive);
            proof {
                assert(names.take(i + 1).drop_last() == names.take(i as int));
                assert(names.take(i + 1).last() == names[i as int]);
                lemma_insert_keys(before, names[i as int], WorkspaceState::Inactive, workspace_entries(hm));
            }
        }
        assert(names.take(n as int) == names);
        let mut s = Hyprland { workspaces: hm };
        s.check_workspaces(snapshot);
        s
    }

    /// Handles an event of the indicator.
    pub fn update(&mut self, msg: Message)
        requires
            old(self).wf(),
        ensures
            final(self).wf(),
            match msg {
                Message::WorkspaceChanged(snapshot) => final(self)@ == checked_entries(entry_keys(old(self)@), snapshot),
            },
    {
        match msg {
            Message::WorkspaceChanged(snapshot) => self.check_workspaces(&snapshot),
        }
    }

    /// Sets every workspace to its state in the snapshot: the active one
    /// `Active`, those with windows `Occupied`, the rest `Inactive`. The names
    /// and their order stay; names the snapshot holds beyond them are ignored.
    pub fn check_workspaces(&mut self, snapshot: &WorkspaceSnapshot)
        requires
            old(self).wf(),
        ensures
            final(self).wf(),
            final(self)@ == checked_entries(entry_keys(old(self)@), *snapshot),
            final(self)@.len() == old(self)@.len(),
            forall|j: int| 0 <= j < old(self)@.len() ==> {
                &&& (#[trigger] final(self)@[j]).0 == old(self)@[j].0
                &&& (final(self)@[j].1 == WorkspaceState::Active <==> old(self)@[j].0 == snapshot.active@)
                &&& (final(self)@[j].1 == WorkspaceState::Occupied <==> (old(self)@[j].0 != snapshot.active@
                    && exists|i: int| 0 <= i < snapshot.workspaces@.len() && #[trigger] snapshot.workspaces@[i].name@
                        == old(self)@[j].0 && snapshot.workspaces@[i].windows > 0))
            },
    {
        proof {
            lemma_check_states(entry_keys(self@), *snapshot);
            assert forall|j: int| 0 <= j < self@.len() implies #[trigger] entry_keys(self@)[j] == self@[j].0 by {}
        }
        let ghost keys = entry_keys(self@);
        let n = map_len(&self.workspaces);
        for i in 0..n
            invariant
                n == workspace_entries(self.workspaces).len(),
                entry_keys(workspace_entries(self.workspaces)) == keys,
                keys.no_duplicates(),
                forall|j: int| 0 <= j < i ==> #[trigger] workspace_entries(self.workspaces)[j].1 == WorkspaceState::Inactive,
        {
            let ghost before = workspace_entries(self.workspaces);
            map_set_at(&mut self.workspaces, i, WorkspaceState::Inactive);
            proof { lemma_set_keeps_keys(before, i as int, WorkspaceState::Inactive); }
        }
        let m = snapshot.workspaces.len();
        for k in 0..m
            invariant
                n == workspace_entries(self.workspaces).len(),
                m == snapshot.workspaces.len(),
                entry_keys(workspace_entries(self.workspaces)) == keys,
                keys.no_duplicates(),
                forall|j: int| 0 <= j < n ==> #[trigger] workspace_entries(self.workspaces)[j].1 == (
                    if is_occupied(snapshot.workspaces@.take(k as int), keys[j]) {
                        WorkspaceState::Occupied
                    } else {
                        WorkspaceState::Inactive
                    }),
        {
            let ghost before = workspace_entries(self.workspaces);
            let ghost ws_prev = snapshot.workspaces@.take(k as int);
            let ghost ws_next = snapshot.workspaces@.take(k + 1);
            let info = &snapshot.workspaces[k];
            if info.windows > 0 {
                match map_index_of(&self.workspaces, &info.name) {
                    Some(idx) => {
                        proof { lemma_key_index_is_position(before, info.name@, idx as int); }
                        map_set_at(&mut self.workspaces, idx, WorkspaceState::Occupied);
                        proof { lemma_set_keeps_keys(before, idx as int, WorkspaceState::Occupied); }
                    },
                    None => {},
                }
            }
            proof {
                assert forall|j: int| 0 <= j < n implies #[trigger] workspace_entries(self.workspaces)[j].1 == (
                    if is_occupied(ws_next, keys[j]) {
                        WorkspaceState::Occupied
                    } else {
                        WorkspaceState::Inactive
                    }) by {
                    assert(ws_next[k as int] == snapshot.workspaces@[k as int]);
                    assert(keys[j] == before[j].0);
                    if is_occupied(ws_prev, keys[j]) {
                        let w = choose|w: int| 0 <= w < ws_prev.len() && #[trigger] ws_prev[w].name@ == keys[j] && ws_prev[w].windows > 0;
                        assert(ws_next[w] == ws_prev[w]);
                    }
                    if is_occupied(ws_next, keys[j]) && !is_occupied(ws_prev, keys[j]) {
                        let w = choose|w: int| 0 <= w < ws_next.len() && #[trigger] ws_next[w].name@ == keys[j] && ws_next[w].windows > 0;
                        if w < k {
                            assert(ws_prev[w] == ws_next[w]);
                        }
                        assert(w == k);
                        assert(key_index(before, keys[j]) == Some(j)) by {
                            lemma_key_index_of_position(before, j);
                        }
                    }
                }
            }
        }
        assert(snapshot.workspaces@.take(m as int) == snapshot.workspaces@);
        let ghost before = workspace_entries(self.workspaces);
        match map_index_of(&self.workspaces, &snapshot.active) {
            Some(idx) => {
                proof { lemma_key_index_is_position(before, snapshot.active@, idx as int); }
                map_set_at(&mut self.workspaces, idx, WorkspaceState::Active);
                proof { lemma_set_keeps_keys(before, idx as int, WorkspaceState::Active); }
            },
            None => {},
        }
        proof {
            let after = workspace_entries(self.workspaces);
            let expect = checked_entries(keys, *snapshot);
            assert forall|j: int| 0 <= j < n implies #[trigger] after[j] == expect[j] by {
                assert(keys[j] == before[j].0);
                if keys[j] == snapshot.active@ {
                    lemma_key_index_of_position(before, j);
                }
            }
            assert(after =~= expect);
        }
    }

    /// The states of the workspaces, in order.
    pub fn states(&self) -> (v: Vec<WorkspaceState>)
        ensures
            v@ == self@.map_values(|p: (Seq<char>, WorkspaceState)| p.1),
    {
        let n = map_len(&self.workspaces);
        let mut v: Vec<WorkspaceState> = Vec::new();
        for i in 0..n
            invariant
                n == self@.len(),
                v@ == self@.take(i as int).map_values(|p: (Seq<char>, WorkspaceState)| p.1),
        {
            v.push(map_value_at(&self.workspaces, i));
            assert(self@.take(i + 1) == self@.take(i as int).push(self@[i as int]));
        }
        assert(self@.take(n as int) == self@);
        v
    }
}

impl Default for Hyprland {
    /// An indicator with no workspaces.
    fn default() -> (s: Self)
        ensures
            s.wf(),
            s@ == Seq::<(Seq<char>, WorkspaceState)>::empty(),
    {
        Hyprland { workspaces: new_workspace_map() }
    }
}

/// Replacing a value leaves the names as they were.
proof fn lemma_set_keeps_keys(e: Seq<(Seq<char>, WorkspaceState)>, i: int, v: WorkspaceState)
    requires
        0 <= i < e.len(),
    ensures
        entry_keys(e.update(i, (e[i].0, v))) == entry_keys(e),
{
    assert(entry_keys(e.update(i, (e[i].0, v))) =~= entry_keys(e));
}

/// Where the names are distinct, the index that `key_index` gives is the one
/// position of the name.
proof fn lemma_key_index_is_position(e: Seq<(Seq<char>, WorkspaceState)>, k: Seq<char>, i: int)
    requires
        key_index(e, k) == Some(i),
    ensures
        0 <= i < e.len(),
        e[i].0 == k,
{
}

/// Where the names are distinct, the name at position `j` has index `j`.
proof fn lemma_key_index_of_position(e: Seq<(Seq<char>, WorkspaceState)>, j: int)
    requires
        0 <= j < e.len(),
        entry_keys(e).no_duplicates(),
    ensures
        key_index(e, e[j].0) == Some(j),
{
    assert(e[j].0 == entry_keys(e)[j]);
    let i = choose|i: int| 0 <= i < e.len() && #[trigger] e[i].0 == e[j].0;
    assert(entry_keys(e)[i] == e[i].0);
}

/// Inserting a name keeps the names distinct and adds it at the end where
/// it was new.
proof fn lemma_insert_keys(
    before: Seq<(Seq<char>, WorkspaceState)>,
    k: Seq<char>,
    v: WorkspaceState,
    after: Seq<(Seq<char>, WorkspaceState)>,
)
    requires
        entry_keys(before).no_duplicates(),
        match key_index(before, k) {
            Some(i) => after == before.update(i, (k, v)),
            None => after == before.push((k, v)),
        },
    ensures
        entry_keys(after).no_duplicates(),
        entry_keys(after) == if entry_keys(before).contains(k) {
            entry_keys(before)
        } else {
            entry_keys(before).push(k)
        },
{
    match key_index(before, k) {
        Some(i) => {
            assert(entry_keys(after) =~= entry_keys(before));
            assert(entry_keys(before)[i] == k);
        },
        None => {
            assert(entry_keys(after) =~= entry_keys(before).push(k));
            if entry_keys(before).contains(k) {
                let j = choose|j: int| 0 <= j < entry_keys(before).len() && entry_keys(before)[j] == k;
                assert(before[j].0 == k);
            }
            assert forall|a: int, b: int| 0 <= a < b < entry_keys(after).len() implies entry_keys(after)[a] != entry_keys(after)[b] by {
                if b == before.len() {
                    assert(entry_keys(before)[a] == before[a].0);
                }
            }
        },
    }
}

/// The colour of a workspace's icon, as `0xRRGGBB`: the active one stands
/// out, occupied ones are light, empty ones dim.
pub open spec fn spec_workspace_color(state: WorkspaceState) -> u32 {
    match state {
        WorkspaceState::Active => 0xbb9af7,
        WorkspaceState::Occupied => 0xa9b1d6,
        WorkspaceState::Inactive => 0x565f89,
    }
}

/// The colour of a workspace's icon, as `0xRRGGBB`.
pub fn workspace_color(state: WorkspaceState) -> (c: u32)
    ensures
        c == spec_workspace_color(state),
{
    match state {
        WorkspaceState::Active => 0xbb9af7,
        WorkspaceState::Occupied => 0xa9b1d6,
        WorkspaceState::Inactive => 0x565f89,
    }
}

/// What a check gives each name, over the snapshot's raw contents: the names
/// stay in order; a name is `Active` exactly when it is the snapshot's active
/// name; it is `Occupied` exactly when it is not the active name and the
/// snapshot holds a workspace with exactly that name and at least one window;
/// otherwise it is `Inactive`.
pub proof fn lemma_check_states(keys: Seq<Seq<char>>, snapshot: WorkspaceSnapshot)
    ensures
        checked_entries(keys, snapshot).len() == keys.len(),
        forall|j: int| 0 <= j < keys.len() ==> {
            &&& (#[trigger] checked_entries(keys, snapshot)[j]).0 == keys[j]
            &&& (checked_entries(keys, snapshot)[j].1 == WorkspaceState::Active <==> keys[j] == snapshot.active@)
            &&& (checked_entries(keys, snapshot)[j].1 == WorkspaceState::Occupied <==> (keys[j] != snapshot.active@
                && exists|i: int| 0 <= i < snapshot.workspaces@.len() && #[trigger] snapshot.workspaces@[i].name@
                    == keys[j] && snapshot.workspaces@[i].windows > 0))
            &&& (checked_entries(keys, snapshot)[j].1 == WorkspaceState::Inactive <==> (keys[j] != snapshot.active@
                && forall|i: int| 0 <= i < snapshot.workspaces@.len() && #[trigger] snapshot.workspaces@[i].name@
                    == keys[j] ==> snapshot.workspaces@[i].windows == 0))
        },
{
    let ws = snapshot.workspaces@;
    assert forall|j: int| 0 <= j < keys.len() implies {
        &&& (#[trigger] checked_entries(keys, snapshot)[j]).0 == keys[j]
        &&& (checked_entries(keys, snapshot)[j].1 == WorkspaceState::Active <==> keys[j] == snapshot.active@)
        &&& (checked_entries(keys, snapshot)[j].1 == WorkspaceState::Occupied <==> (keys[j] != snapshot.active@
            && exists|i: int| 0 <= i < ws.len() && #[trigger] ws[i].name@ == keys[j] && ws[i].windows > 0))
        &&& (checked_entries(keys, snapshot)[j].1 == WorkspaceState::Inactive <==> (keys[j] != snapshot.active@
            && forall|i: int| 0 <= i < ws.len() && #[trigger] ws[i].name@ == keys[j] ==> ws[i].windows == 0))
    } by {
        if keys[j] != snapshot.active@ {
            if exists|i: int| 0 <= i < ws.len() && #[trigger] ws[i].name@ == keys[j] && ws[i].windows > 0 {
                let i = choose|i: int| 0 <= i < ws.len() && #[trigger] ws[i].name@ == keys[j] && ws[i].windows > 0;
                assert(is_occupied(ws, keys[j]));
            }
        }
    }
}

/// A check keeps the workspace names and their order.
pub proof fn lemma_check_keeps_names(keys: Seq<Seq<char>>, snapshot: WorkspaceSnapshot)
    ensures
        entry_keys(checked_entries(keys, snapshot)) == keys,
{
    assert(entry_keys(checked_entries(keys, snapshot)) =~= keys);
}

/// Checking twice against the same snapshot gives what checking once gives.
pub proof fn lemma_check_idempotent(keys: Seq<Seq<char>>, snapshot: WorkspaceSnapshot)
    ensures
        checked_entries(entry_keys(checked_entries(keys, snapshot)), snapshot) == checked_entries(keys, snapshot),
{
    lemma_check_keeps_names(keys, snapshot);
}

/// With distinct names, at most one workspace is active after a check, and
/// one is exactly when the active workspace of the snapshot is among the names.
pub proof fn lemma_single_active(keys: Seq<Seq<char>>, snapshot: WorkspaceSnapshot)
    requires
        keys.no_duplicates(),
    ensures
        forall|i: int, j: int|
            0 <= i < keys.len() && 0 <= j < keys.len()
                && #[trigger] checked_entries(keys, snapshot)[i].1 == WorkspaceState::Active
                && #[trigger] checked_entries(keys, snapshot)[j].1 == WorkspaceState::Active
                ==> i == j,
        (exists|i: int| 0 <= i < keys.len() && #[trigger] checked_entries(keys, snapshot)[i].1 == WorkspaceState::Active)
            <==> keys.contains(snapshot.active@),
{
    let e = checked_entries(keys, snapshot);
    if keys.contains(snapshot.active@) {
        let i = choose|i: int| 0 <= i < keys.len() && keys[i] == snapshot.active@;
        assert(e[i].1 == WorkspaceState::Active);
    }
}

/// The names that the indicator starts with: each configured name once, in
/// order of first appearance.
pub proof fn lemma_first_occurrences(names: Seq<Seq<char>>)
    ensures
        first_occurrences(names).no_duplicates(),
        forall|k: Seq<char>| #[trigger] first_occurrences(names).contains(k) <==> names.contains(k),
    decreases names.len(),
{
    if names.len() > 0 {
        let prev = names.drop_last();
        let last = names.last();
        lemma_first_occurrences(prev);
        let fp = first_occurrences(prev);
        let f = first_occurrences(names);
        assert(names == prev.push(last));
        assert(f == if fp.contains(last) { fp } else { fp.push(last) });
        assert forall|k: Seq<char>| names.contains(k) <==> prev.contains(k) || k == last by {
            if names.contains(k) && k != last {
                let i = choose|i: int| 0 <= i < names.len() && names[i] == k;
                assert(i < prev.len());
                assert(prev[i] == k);
            }
            if prev.contains(k) {
                let i = choose|i: int| 0 <= i < prev.len() && prev[i] == k;
                assert(names[i] == k);
            }
            if k == last {
                assert(names[names.len() - 1] == k);
            }
        }
        if !fp.contains(last) {
            let g = fp.push(last);
            assert forall|k: Seq<char>| g.contains(k) <==> fp.contains(k) || k == last by {
                if g.contains(k) && k != last {
                    let i = choose|i: int| 0 <= i < g.len() && g[i] == k;
                    assert(i < fp.len());
                    assert(fp[i] == k);
                }
                if fp.contains(k) {
                    let i = choose|i: int| 0 <= i < fp.len() && fp[i] == k;
                    assert(g[i] == k);
                }
                if k == last {
                    assert(g[fp.len() as int] == k);
                }
            }
            assert forall|a: int, b: int| 0 <= a < g.len() && 0 <= b < g.len() && a != b implies g[a] != g[b] by {
                if b == fp.len() {
                    assert(g[a] == fp[a]);
                } else if a == fp.len() {
                    assert(g[b] == fp[b]);
                }
            }
        }
    }
}

} // verus!
