//! Which UPower devices are batteries.
use vstd::prelude::*;

use crate::digits::chars_of;

verus! {

/// The object path that every battery's device path holds.
pub open spec fn battery_path_marker() -> Seq<char> {
    "/org/freedesktop/UPower/devices/battery_BAT"@
}

/// Whether `pat` occurs in `s` at some position.
pub open spec fn occurs_in(s: Seq<char>, pat: Seq<char>) -> bool {
    exists|i: int| 0 <= i && i + pat.len() <= s.len() && #[trigger] s.subrange(i, i + pat.len()) == pat
}

/// Whether `pat` occurs in `s` starting at position `i`.
fn occurs_at(s: &Vec<char>, pat: &Vec<char>, i: usize) -> (r: bool)
    requires
        i + pat@.len() <= s@.len(),
    ensures
        r == (s@.subrange(i as int, i + pat@.len()) == pat@),
{
    let m = pat.len();
    for j in 0..m
        invariant
            m == pat@.len(),
            i + m <= s@.len(),
            s@.len() == s.len(),
            forall|k: int| 0 <= k < j ==> s@[i + k] == pat@[k],
    {
        if s[i + j] != pat[j] {
            assert(s@.subrange(i as int, i + m)[j as int] != pat@[j as int]);
            return false;
        }
    }
    assert(s@.subrange(i as int, i + m) =~= pat@);
    true
}

/// Whether `pat` occurs in `s`, as `str::contains` tells.
pub fn contains_str(s: &str, pat: &str) -> (r: bool)
    ensures
        r == occurs_in(s@, pat@),
{
    let sc = chars_of(s);
    let pc = chars_of(pat);
    let n = sc.len();
    let m = pc.len();
    if m > n {
        assert forall|i: int| 0 <= i && i + pc@.len() <= sc@.len() implies #[trigger] sc@.subrange(i, i + pc@.len()) != pc@ by {
        }
        return false;
    }
    if m == 0 {
        assert(s@.subrange(0int, 0int + pat@.len()) =~= pat@);
        return true;
    }
    let last = n - m;
    let mut i: usize = 0;
    while i <= last
        invariant
            n == sc@.len(),
            m == pc@.len(),
            last == n - m,
            m > 0,
            sc@ == s@,
            pc@ == pat@,
            i <= last + 1,
            forall|k: int| 0 <= k < i ==> #[trigger] sc@.subrange(k, k + m) != pc@,
        decreases last + 1 - i,
    {
        if occurs_at(&sc, &pc, i) {
            return true;
        }
        i = i + 1;
    }
    false
}

/// Whether the device path is a battery's.
pub fn is_battery_device_path(path: &str) -> (r: bool)
    ensures
        r == occurs_in(path@, battery_path_marker()),
        r <==> exists|i: int|
            0 <= i && i + 43 <= path@.len() && #[trigger] path@.subrange(i, i + 43)
                == "/org/freedesktop/UPower/devices/battery_BAT"@,
{
    proof {
        reveal_strlit("/org/freedesktop/UPower/devices/battery_BAT");
        lemma_battery_marker();
    }
    contains_str(path, "/org/freedesktop/UPower/devices/battery_BAT")
}

/// The battery paths among `paths`, in their order.
pub open spec fn battery_paths(paths: Seq<Seq<char>>) -> Seq<Seq<char>>
    decreases paths.len(),
{
    if paths.len() == 0 {
        Seq::empty()
    } else {
        let prev = battery_paths(paths.drop_last());
        if occurs_in(paths.last(), battery_path_marker()) {
            prev.push(paths.last())
        } else {
            prev
        }
    }
}

/// Keeps the device paths that are batteries', in their order.
pub fn battery_device_paths(paths: Vec<String>) -> (r: Vec<String>)
    ensures
        r@.map_values(|s: String| s@) == battery_paths(paths@.map_values(|s: String| s@)),
{
    let ghost all = paths@.map_values(|s: String| s@);
    let mut r: Vec<String> = Vec::new();
    let n = paths.len();
    for i in 0..n
        invariant
            n == paths@.len(),
            all == paths@.map_values(|s: String| s@),
            r@.map_values(|s: String| s@) == battery_paths(all.take(i as int)),
    {
        let p = &paths[i];
        assert(all.take(i + 1).drop_last() == all.take(i as int));
        assert(all.take(i + 1).last() == p@);
        if is_battery_device_path(p.as_str()) {
            let ghost before = r@;
            r.push(p.clone());
            assert(r@.map_values(|s: String| s@) =~= before.map_values(|s: String| s@).push(p@));
        }
    }
    assert(all.take(n as int) == all);
    r
}

/// The kept paths are exactly the battery paths among the given ones: each
/// kept path is a battery's and was given, and each battery path given is kept.
pub proof fn lemma_battery_paths_filter(paths: Seq<Seq<char>>)
    ensures
        forall|p: Seq<char>| #[trigger] battery_paths(paths).contains(p)
            <==> (paths.contains(p) && occurs_in(p, battery_path_marker())),
        battery_paths(paths).len() <= paths.len(),
    decreases paths.len(),
{
    if paths.len() > 0 {
        let prev = paths.drop_last();
        let last = paths.last();
        lemma_battery_paths_filter(prev);
        let bp = battery_paths(prev);
        assert(paths == prev.push(last));
        assert forall|p: Seq<char>| paths.contains(p) <==> prev.contains(p) || p == last by {
            if paths.contains(p) && p != last {
                let i = choose|i: int| 0 <= i < paths.len() && paths[i] == p;
                assert(prev[i] == p);
            }
            if prev.contains(p) {
                let i = choose|i: int| 0 <= i < prev.len() && prev[i] == p;
                assert(paths[i] == p);
            }
            if p == last {
                assert(paths[paths.len() - 1] == p);
            }
        }
        if occurs_in(last, battery_path_marker()) {
            let g = bp.push(last);
            assert forall|p: Seq<char>| g.contains(p) <==> bp.contains(p) || p == last by {
                if g.contains(p) && p != last {
                    let i = choose|i: int| 0 <= i < g.len() && g[i] == p;
                    assert(bp[i] == p);
                }
                if bp.contains(p) {
                    let i = choose|i: int| 0 <= i < bp.len() && bp[i] == p;
                    assert(g[i] == p);
                }
                if p == last {
                    assert(g[bp.len() as int] == p);
                }
            }
        }
    }
}

/// The battery marker is the whole text `/org/freedesktop/UPower/devices/battery_BAT`,
/// 43 characters long.
pub proof fn lemma_battery_marker()
    ensures
        battery_path_marker() == "/org/freedesktop/UPower/devices/battery_BAT"@,
        "/org/freedesktop/UPower/devices/battery_BAT"@.len() == 43,
{
    reveal_strlit("/org/freedesktop/UPower/devices/battery_BAT");
}

/// `pat` occurs in `s` exactly when some window of `s` as long as `pat`
/// equals it.
pub proof fn lemma_occurs_in(s: Seq<char>, pat: Seq<char>)
    ensures
        occurs_in(s, pat) <==> exists|i: int|
            0 <= i && i + pat.len() <= s.len() && #[trigger] s.subrange(i, i + pat.len()) =~= pat,
{
    if exists|i: int| 0 <= i && i + pat.len() <= s.len() && #[trigger] s.subrange(i, i + pat.len()) =~= pat {
        let i = choose|i: int| 0 <= i && i + pat.len() <= s.len() && #[trigger] s.subrange(i, i + pat.len()) =~= pat;
        assert(s.subrange(i, i + pat.len()) == pat);
    }
}

/// The kept paths are exactly the given paths in which the whole text
/// `/org/freedesktop/UPower/devices/battery_BAT` occurs.
pub proof fn lemma_battery_paths_exact(paths: Seq<Seq<char>>)
    ensures
        forall|p: Seq<char>| #[trigger] battery_paths(paths).contains(p) <==> (paths.contains(p) && exists|i: int|
            0 <= i && i + 43 <= p.len() && #[trigger] p.subrange(i, i + 43)
                == "/org/freedesktop/UPower/devices/battery_BAT"@),
{
    lemma_battery_marker();
    lemma_battery_paths_filter(paths);
}

} // verus!
