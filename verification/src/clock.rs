//! The clock in the middle of the bar.
use vstd::prelude::*;

verus! {

/// An instant: whole seconds since the Unix epoch and the nanoseconds past
/// them, as the local clock read it.
#[derive(Clone, Copy, Debug, PartialEq, Eq, Structural)]
pub struct ClockTime {
    pub secs: i64,
    pub nanos: u32,
}

/// The events of the clock: a tick with the time read at it.
#[derive(Clone, Copy, Debug)]
pub enum Message {
    Tick(ClockTime),
}

#[derive(Clone, Copy, Debug)]
pub struct Clock {
    time_now: ClockTime,
}

impl Clock {
    /// The time the clock shows.
    pub closed spec fn time(&self) -> ClockTime {
        self.time_now
    }

    /// A clock that shows the Unix epoch until its first tick.
    pub fn new() -> (c: Self)
        ensures
            c.time() == (ClockTime { secs: 0, nanos: 0 }),
    {
        Clock { time_now: ClockTime { secs: 0, nanos: 0 } }
    }

    /// Handles an event: the clock then shows the time of the tick.
    pub fn update(&mut self, msg: Message)
        ensures
            match msg {
                Message::Tick(t) => final(self).time() == t,
            },
    {
        match msg {
            Message::Tick(local_time) => self.time_now = local_time,
        }
    }

    /// The time the clock shows.
    pub fn time_now(&self) -> (t: ClockTime)
        ensures
            t == self.time(),
    {
        self.time_now
    }
}

impl Default for Clock {
    /// A clock at the Unix epoch.
    fn default() -> (c: Self)
        ensures
            c.time() == (ClockTime { secs: 0, nanos: 0 }),
    {
        Clock::new()
    }
}

} // verus!
