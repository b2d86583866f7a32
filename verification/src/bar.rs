//! The bar: the workspace indicator at its start and the clock at its centre.
use vstd::prelude::*;

use crate::clock::{self, Clock};
use crate::hyprland::{self, checked_entries, first_occurrences, string_views, Hyprland, WorkspaceSnapshot};
use crate::workspace_map::entry_keys;

verus! {

/// The events of the bar, each for one of its modules.
#[derive(Clone, Debug)]
pub enum Message {
    Clock(clock::Message),
    Hyprland(hyprland::Message),
}

pub struct Bar {
    start: Hyprland,
    center: Clock,
}

impl Bar {
    /// The workspace indicator.
    pub closed spec fn spec_start(&self) -> Hyprland {
        self.start
    }

    /// The clock.
    pub closed spec fn spec_center(&self) -> Clock {
        self.center
    }

    pub open spec fn wf(&self) -> bool {
        self.spec_start().wf()
    }

    /// The bar for the configured workspace names, checked against the
    /// snapshot, with a clock at the Unix epoch.
    pub fn new(workspaces: &Vec<String>, snapshot: &WorkspaceSnapshot) -> (b: Self)
        ensures
            b.wf(),
            b.spec_start()@ == checked_entries(first_occurrences(string_views(workspaces@)), *snapshot),
            b.spec_center().time() == (clock::ClockTime { secs: 0, nanos: 0 }),
    {
        Bar { start: Hyprland::new(workspaces, snapshot), center: Clock::new() }
    }

    /// The name the bar's surface is registered under.
    pub fn namespace(&self) -> (s: String)
        ensures
            s@ == "Rarsv2"@,
    {
        String::from_str("Rarsv2")
    }

    /// Hands each event to its module; the other module stays as it was.
    pub fn update(&mut self, msg: Message)
        requires
            old(self).wf(),
        ensures
            final(self).wf(),
            match msg {
                Message::Clock(clock::Message::Tick(t)) => {
                    &&& final(self).spec_center().time() == t
                    &&& final(self).spec_start() == old(self).spec_start()
                },
                Message::Hyprland(hyprland::Message::WorkspaceChanged(snapshot)) => {
                    &&& final(self).spec_start()@ == checked_entries(entry_keys(old(self).spec_start()@), snapshot)
                    &&& final(self).spec_center() == old(self).spec_center()
                },
            },
    {
        match msg {
            Message::Clock(msg) => {
                self.center.update(msg);
            },
            Message::Hyprland(msg) => {
                self.start.update(msg);
            },
        }
    }

    /// The workspace indicator.
    pub fn start(&self) -> (h: &Hyprland)
        ensures
            *h == self.spec_start(),
    {
        &self.start
    }

    /// The clock.
    pub fn center(&self) -> (c: &Clock)
        ensures
            *c == self.spec_center(),
    {
        &self.center
    }
}

impl Default for Bar {
    /// A bar with no workspaces and a clock at the Unix epoch.
    fn default() -> (b: Self)
        ensures
            b.wf(),
            b.spec_start()@ == Seq::<(Seq<char>, hyprland::WorkspaceState)>::empty(),
            b.spec_center().time() == (clock::ClockTime { secs: 0, nanos: 0 }),
    {
        Bar { start: Hyprland::default(), center: Clock::new() }
    }
}

/// The output to put the bar on: the first argument after the program's
/// name, if there is one.
pub fn bound_output_name(args: &Vec<String>) -> (r: Option<String>)
    ensures
        match r {
            Some(name) => args@.len() >= 2 && name@ == args@[1]@,
            None => args@.len() < 2,
        },
{
    if args.len() >= 2 {
        Some(args[1].clone())
    } else {
        None
    }
}

} // verus!
