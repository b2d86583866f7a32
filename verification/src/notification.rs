//! The notification daemon's store: the notifications received, by id.
use std::collections::HashMap;
use vstd::prelude::*;

verus! {

broadcast use vstd::std_specs::hash::group_hash_axioms;

/// A notification as a client sent it, with the id the daemon gave it.
#[derive(Clone, Debug)]
pub struct Notification {
    pub app_name: String,
    pub replaces_id: u32,
    pub app_icon: String,
    pub summary: String,
    pub body: String,
    pub actions: Vec<String>,
    pub expire_timeout: i32,
    pub notification_id: u32,
}

/// The id after `c`, counting on from `u32::MAX` to `0`.
pub open spec fn next_count(c: u32) -> u32 {
    if c == u32::MAX {
        0
    } else {
        (c + 1) as u32
    }
}

/// The id a new notification gets: the next from the counter, unless it
/// replaces the notification with a nonzero `replaces_id`.
pub open spec fn assigned_id(count: u32, replaces_id: u32) -> u32 {
    if replaces_id == 0 {
        count
    } else {
        replaces_id
    }
}

/// The daemon's state: the counter the next fresh id is drawn from and the
/// notifications it holds, by id.
pub struct NotificationDaemon {
    count: u32,
    notifications: HashMap<u32, Notification>,
}

impl NotificationDaemon {
    /// The id the next fresh notification gets.
    pub closed spec fn spec_count(&self) -> u32 {
        self.count
    }

    /// The notifications held, by id.
    pub closed spec fn store(&self) -> Map<u32, Notification> {
        self.notifications@
    }

    /// A daemon that holds nothing and counts from `0`.
    pub fn new() -> (d: Self)
        ensures
            d.spec_count() == 0,
            d.store() == Map::<u32, Notification>::empty(),
    {
        NotificationDaemon { count: 0, notifications: HashMap::new() }
    }

    /// Receives a notification and returns its id: a fresh one when
    /// `replaces_id` is `0`, else `replaces_id`, whose notification it then
    /// replaces.
    pub fn notify(
        &mut self,
        app_name: String,
        replaces_id: u32,
        app_icon: String,
        summary: String,
        body: String,
        actions: Vec<String>,
        expire_timeout: i32,
    ) -> (id: u32)
        ensures
            id == assigned_id(old(self).spec_count(), replaces_id),
            replaces_id != 0 ==> id == replaces_id,
            replaces_id == 0 ==> id == old(self).spec_count(),
            final(self).store().contains_key(id),
            final(self).store()[id].notification_id == id,
            final(self).store()[id].replaces_id == replaces_id,
            final(self).spec_count() == if replaces_id == 0 {
                next_count(old(self).spec_count())
            } else {
                old(self).spec_count()
            },
            final(self).store() == old(self).store().insert(
                id,
                Notification {
                    app_name,
                    replaces_id,
                    app_icon,
                    summary,
                    body,
                    actions,
                    expire_timeout,
                    notification_id: id,
                },
            ),
    {
        let notification_id = if replaces_id == 0 {
            let id = self.count;
            self.count = self.count.wrapping_add(1);
            id
        } else {
            replaces_id
        };
        let notification = Notification {
            app_name,
            replaces_id,
            app_icon,
            summary,
            body,
            actions,
            expire_timeout,
            notification_id,
        };
        self.notifications.insert(notification_id, notification);
        notification_id
    }

    /// Drops the notification with the given id, if there is one.
    pub fn close_notification(&mut self, id: u32)
        ensures
            final(self).spec_count() == old(self).spec_count(),
            final(self).store() == old(self).store().remove(id),
    {
        self.notifications.remove(&id);
    }

    /// The notification with the given id, if the daemon holds it.
    pub fn get(&self, id: u32) -> (r: Option<&Notification>)
        ensures
            match r {
                Some(n) => self.store().contains_key(id) && *n == self.store()[id],
                None => !self.store().contains_key(id),
            },
    {
        self.notifications.get(&id)
    }

    /// How many notifications the daemon holds.
    pub fn len(&self) -> (n: usize)
        ensures
            n == self.store().len(),
    {
        self.notifications.len()
    }

    /// The server's name, vendor, version and the version of the
    /// notification protocol it speaks, given the package's name as vendor
    /// and the package's version.
    pub fn get_server_information(&self, package_name: &str, package_version: &str) -> (r: (
        String,
        String,
        String,
        String,
    ))
        ensures
            r.0@ == "Notification Daemon Test"@,
            r.1@ == package_name@,
            r.2@ == package_version@,
            r.3@ == "1.2"@,
    {
        let name = String::from_str("Notification Daemon Test");
        let vendor = String::from_str(package_name);
        let version = String::from_str(package_version);
        let specification_version = String::from_str("1.2");
        (name, vendor, version, specification_version)
    }
}

impl Default for NotificationDaemon {
    /// A daemon that holds nothing and counts from `0`.
    fn default() -> (d: Self)
        ensures
            d.spec_count() == 0,
            d.store() == Map::<u32, Notification>::empty(),
    {
        NotificationDaemon::new()
    }
}

/// What a notification was stored under, a lookup of that id gives back, and
/// the other ids keep what they held.
pub proof fn lemma_lookup_after_store(before: Map<u32, Notification>, id: u32, n: Notification)
    ensures
        before.insert(id, n).contains_key(id),
        before.insert(id, n)[id] == n,
        forall|other: u32| other != id ==> (#[trigger] before.insert(id, n).contains_key(other)
            == before.contains_key(other)) && (before.contains_key(other) ==> before.insert(id, n)[other]
            == before[other]),
{
}

/// A closed notification is gone, and the others stay.
pub proof fn lemma_lookup_after_close(before: Map<u32, Notification>, id: u32)
    ensures
        !before.remove(id).contains_key(id),
        forall|other: u32| other != id ==> (#[trigger] before.remove(id).contains_key(other)
            == before.contains_key(other)) && (before.contains_key(other) ==> before.remove(id)[other]
            == before[other]),
{
}

/// Fresh ids come from the counter in turn: `k` fresh notifications in a row,
/// with `k` at most `2^32`, get `k` distinct ids.
pub open spec fn nth_count(c: u32, k: nat) -> u32
    decreases k,
{
    if k == 0 {
        c
    } else {
        next_count(nth_count(c, (k - 1) as nat))
    }
}

proof fn lemma_nth_count_value(c: u32, k: nat)
    ensures
        nth_count(c, k) == (c + k) % 0x1_0000_0000,
    decreases k,
{
    if k > 0 {
        lemma_nth_count_value(c, (k - 1) as nat);
    }
}

/// The fresh ids drawn one after another from a counter do not repeat
/// before `2^32` of them have been drawn.
pub proof fn lemma_fresh_ids_distinct(c: u32, i: nat, j: nat)
    requires
        i < j < 0x1_0000_0000,
    ensures
        nth_count(c, i) != nth_count(c, j),
{
    lemma_nth_count_value(c, i);
    lemma_nth_count_value(c, j);
    assert((c + i) % 0x1_0000_0000 != (c + j) % 0x1_0000_0000) by (nonlinear_arith)
        requires
            i < j < 0x1_0000_0000,
            0 <= c < 0x1_0000_0000,
    {
        if (c + i) % 0x1_0000_0000 == (c + j) % 0x1_0000_0000 {
            assert((c + j) - (c + i) == j - i);
        }
    }
}

/// One call on the daemon, with the id it returned where it returns one.
pub enum DaemonCall {
    /// `notify` with this `replaces_id`, which returned `id`.
    Notify { replaces_id: u32, id: u32 },
    /// `close_notification` of this id.
    Close { id: u32 },
}

/// Whether a call asked for a fresh id: a `notify` with `replaces_id` `0`.
pub open spec fn is_fresh(call: DaemonCall) -> bool {
    call matches DaemonCall::Notify { replaces_id, .. } && replaces_id == 0
}

/// What the contracts of `notify` and `close_notification` say of one call
/// that took the daemon from `before` to `after`: the id returned and how
/// the counter moves.
pub open spec fn call_step(before: NotificationDaemon, call: DaemonCall, after: NotificationDaemon) -> bool {
    match call {
        DaemonCall::Notify { replaces_id, id } => {
            &&& id == assigned_id(before.spec_count(), replaces_id)
            &&& after.spec_count() == if replaces_id == 0 {
                next_count(before.spec_count())
            } else {
                before.spec_count()
            }
        },
        DaemonCall::Close { id } => after.spec_count() == before.spec_count(),
    }
}

/// How many of the first `i` calls asked for a fresh id.
pub open spec fn fresh_before(calls: Seq<DaemonCall>, i: int) -> nat
    decreases i,
{
    if i <= 0 {
        0
    } else {
        fresh_before(calls, i - 1) + if is_fresh(calls[i - 1]) {
            1nat
        } else {
            0nat
        }
    }
}

proof fn lemma_fresh_before_monotone(calls: Seq<DaemonCall>, i: int, j: int)
    requires
        0 <= i <= j,
    ensures
        fresh_before(calls, i) <= fresh_before(calls, j),
        i < j && is_fresh(calls[i]) ==> fresh_before(calls, i) < fresh_before(calls, j),
    decreases j,
{
    if i < j {
        lemma_fresh_before_monotone(calls, i, j - 1);
    }
}

proof fn lemma_run_counter(states: Seq<NotificationDaemon>, calls: Seq<DaemonCall>, i: int)
    requires
        states.len() == calls.len() + 1,
        forall|k: int| 0 <= k < calls.len() ==> #[trigger] call_step(states[k], calls[k], states[k + 1]),
        0 <= i <= calls.len(),
    ensures
        states[i].spec_count() == nth_count(states[0].spec_count(), fresh_before(calls, i)),
    decreases i,
{
    if i > 0 {
        lemma_run_counter(states, calls, i - 1);
        let k = i - 1;
        assert(call_step(states[k], calls[k], states[k + 1]));
        assert(k + 1 == i);
        if is_fresh(calls[i - 1]) {
            assert(fresh_before(calls, i) == fresh_before(calls, i - 1) + 1);
        } else {
            assert(fresh_before(calls, i) == fresh_before(calls, i - 1));
        }
    }
}

/// Over any run of `notify` and `close_notification` calls on a daemon that
/// starts from `new()` or `default()` (its counter at `0`), the fresh ids
/// handed out are `0, 1, 2, ...` in turn: the call that asks for the `k`-th
/// fresh id gets `k`, whatever replacements and closes stand between them.
/// Replacing and closing never take a counter value. While fewer than `2^32`
/// fresh ids have been handed out, they increase strictly and never repeat.
pub proof fn lemma_fresh_ids_in_turn(states: Seq<NotificationDaemon>, calls: Seq<DaemonCall>)
    requires
        states.len() == calls.len() + 1,
        states[0].spec_count() == 0,
        forall|k: int| 0 <= k < calls.len() ==> #[trigger] call_step(states[k], calls[k], states[k + 1]),
    ensures
        forall|i: int|
            0 <= i < calls.len() && #[trigger] is_fresh(calls[i]) ==> calls[i]->Notify_id
                == fresh_before(calls, i) % 0x1_0000_0000,
        forall|i: int, j: int|
            0 <= i < j < calls.len() && is_fresh(calls[i]) && is_fresh(calls[j]) && fresh_before(calls, j)
                < 0x1_0000_0000 ==> #[trigger] calls[i]->Notify_id < #[trigger] calls[j]->Notify_id,
{
    assert forall|i: int| 0 <= i < calls.len() && #[trigger] is_fresh(calls[i]) implies calls[i]->Notify_id
        == fresh_before(calls, i) % 0x1_0000_0000 by {
        lemma_run_counter(states, calls, i);
        lemma_nth_count_value(0, fresh_before(calls, i));
        assert(call_step(states[i], calls[i], states[i + 1]));
    }
    assert forall|i: int, j: int|
        0 <= i < j < calls.len() && is_fresh(calls[i]) && is_fresh(calls[j]) && fresh_before(calls, j)
            < 0x1_0000_0000 implies #[trigger] calls[i]->Notify_id < #[trigger] calls[j]->Notify_id by {
        lemma_run_counter(states, calls, i);
        lemma_run_counter(states, calls, j);
        lemma_nth_count_value(0, fresh_before(calls, i));
        lemma_nth_count_value(0, fresh_before(calls, j));
        assert(call_step(states[i], calls[i], states[i + 1]));
        assert(call_step(states[j], calls[j], states[j + 1]));
        lemma_fresh_before_monotone(calls, i, j);
    }
}

/// The id a call gets: `replaces_id` itself when it is nonzero, the counter
/// when it is `0`.
pub proof fn lemma_assigned_id(count: u32, replaces_id: u32)
    ensures
        replaces_id != 0 ==> assigned_id(count, replaces_id) == replaces_id,
        replaces_id == 0 ==> assigned_id(count, replaces_id) == count,
{
}

/// The counter steps by one, wrapping from `u32::MAX` to `0`.
pub proof fn lemma_next_count(c: u32)
    ensures
        next_count(c) == (c + 1) % 0x1_0000_0000,
{
}

} // verus!
