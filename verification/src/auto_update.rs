//! The automatic signature update: whether its worker runs, how long it
//! waits between updates, and when the last update finished. Starting the
//! worker thread, waiting and running `freshclam` are left to the caller,
//! which follows what these functions decide.
use vstd::prelude::*;

verus! {

/// The state of the automatic update.
#[derive(Debug)]
pub struct AutoUpdate {
    /// Hours between two updates.
    pub interval_hours: u64,
    /// A worker was started and not stopped since.
    pub running: bool,
    /// A stop was asked for; a worker stops at its next check, and one
    /// started later stops after its first update.
    pub stop_requested: bool,
    /// When the last update finished (milliseconds since the Unix epoch).
    pub last_update: Option<i64>,
}

/// The interval, in seconds, between updates every `hours` hours.
pub open spec fn interval_secs(hours: u64) -> int {
    hours * 3600
}

/// The state once the worker is started (nothing changes if it runs).
pub open spec fn started(s: AutoUpdate) -> AutoUpdate {
    AutoUpdate { running: true, ..s }
}

/// The state once the worker is asked to stop.
pub open spec fn stopped(s: AutoUpdate) -> AutoUpdate {
    AutoUpdate { running: false, stop_requested: true, ..s }
}

/// The state once the interval is set to `hours`.
pub open spec fn with_interval(s: AutoUpdate, hours: u64) -> AutoUpdate {
    AutoUpdate { interval_hours: hours, ..s }
}

/// The state once an update finished at `finished_at` is recorded.
pub open spec fn with_last_update(s: AutoUpdate, finished_at: i64) -> AutoUpdate {
    AutoUpdate { last_update: Some(finished_at), ..s }
}

impl AutoUpdate {
    /// An automatic update every `interval_hours` hours, not started.
    pub fn new(interval_hours: u64) -> (r: AutoUpdate)
        ensures
            r.interval_hours == interval_hours,
            !r.running,
            !r.stop_requested,
            r.last_update is None,
    {
        AutoUpdate { interval_hours, running: false, stop_requested: false, last_update: None }
    }

    /// Starts the worker unless it runs already. Gives the interval in
    /// seconds that a new worker waits between updates, or `None` when no
    /// worker is to be started.
    pub fn start(&mut self) -> (r: Option<u64>)
        requires
            old(self).running || interval_secs(old(self).interval_hours) <= u64::MAX,
        ensures
            *final(self) == started(*old(self)),
            old(self).running ==> r is None,
            !old(self).running ==> r == Some(interval_secs(old(self).interval_hours) as u64),
    {
        if self.running {
            return None;
        }
        self.running = true;
        Some(self.interval_hours * 3600)
    }

    /// Asks the worker to stop. Gives whether there was a worker to wait for.
    pub fn stop(&mut self) -> (r: bool)
        ensures
            r == old(self).running,
            *final(self) == stopped(*old(self)),
    {
        self.stop_requested = true;
        let was_running = self.running;
        self.running = false;
        was_running
    }

    /// Whether the worker runs.
    pub fn is_running(&self) -> (r: bool)
        ensures
            r == self.running,
    {
        self.running
    }

    /// When the last update finished.
    pub fn get_last_update(&self) -> (r: Option<i64>)
        ensures
            r == self.last_update,
    {
        self.last_update
    }

    /// Sets the interval; a running worker keeps the interval it started with.
    pub fn set_interval(&mut self, hours: u64)
        ensures
            *final(self) == with_interval(*old(self), hours),
    {
        self.interval_hours = hours;
    }

    /// Records that an update finished at `finished_at`.
    pub fn update_last_update(&mut self, finished_at: i64)
        ensures
            *final(self) == with_last_update(*old(self), finished_at),
    {
        self.last_update = Some(finished_at);
    }

    /// Whether a worker goes on after its wait: not once a stop was asked for.
    pub fn keeps_going(&self) -> (r: bool)
        ensures
            r == !self.stop_requested,
    {
        !self.stop_requested
    }
}

} // verus!
