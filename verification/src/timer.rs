//! Personal stopwatches: a timer is either running or stopped, and each
//! toggle moves it from one state to the other.
use vstd::prelude::*;

verus! {

/// A stopwatch of one user. While `status` is `"active"` the timer runs
/// since `start`; `time` holds the seconds gathered in earlier runs.
#[derive(Debug)]
pub struct Timer {
    pub id: Option<i32>,
    pub name: String,
    pub user_id: i32,
    pub status: String,
    pub time: i32,
    pub start: Option<i32>,
}

impl Clone for Timer {
    fn clone(&self) -> (r: Self)
        ensures
            r == *self,
    {
        Timer {
            id: self.id,
            name: self.name.clone(),
            user_id: self.user_id,
            status: self.status.clone(),
            time: self.time,
            start: self.start,
        }
    }
}

impl Timer {
    /// The timer is running. Any status other than `"active"` counts as
    /// stopped.
    pub open spec fn is_active(&self) -> bool {
        self.status@ == "active"@
    }

    /// The timer carries the status `"stopped"`.
    pub open spec fn is_stopped(&self) -> bool {
        self.status@ == "stopped"@
    }

    /// A running timer knows since when it runs.
    pub open spec fn well_formed(&self) -> bool {
        self.is_active() ==> self.start is Some
    }

    /// The seconds the timer has gathered up to the moment `now`: its stored
    /// time, and for a running timer also the time since its start.
    pub open spec fn elapsed(&self, now: i32) -> int {
        if self.is_active() {
            self.time + (now - self.start.unwrap())
        } else {
            self.time as int
        }
    }

    /// The timer is well formed and its time at `now` fits the field that
    /// stores it.
    pub open spec fn readable_at(&self, now: i32) -> bool {
        &&& self.well_formed()
        &&& i32::MIN <= self.elapsed(now) <= i32::MAX
    }

    /// `next` is what a toggle at the moment `now` makes of this timer: the
    /// other state, the time gathered so far, and `now` as the new start.
    pub open spec fn toggles_to(&self, next: &Timer, now: i32) -> bool {
        &&& next.id == self.id
        &&& next.name == self.name
        &&& next.user_id == self.user_id
        &&& (self.is_active() ==> next.is_stopped())
        &&& (!self.is_active() ==> next.is_active())
        &&& next.time == self.elapsed(now)
        &&& next.start == Some(now)
    }

    /// A fresh timer: running since `now` with nothing gathered.
    pub fn new(name: String, user_id: i32, now: i32) -> (r: Timer)
        ensures
            r.id is None,
            r.name == name,
            r.user_id == user_id,
            r.is_active(),
            r.time == 0,
            r.start == Some(now),
            r.well_formed(),
    {
        Timer {
            id: None,
            name,
            user_id,
            status: "active".to_owned(),
            time: 0,
            start: Some(now),
        }
    }

    /// Whether the timer is running.
    pub fn running(&self) -> (r: bool)
        ensures
            r == self.is_active(),
    {
        let active = "active".to_owned();
        self.status == active
    }

    /// Whether the timer can be read and toggled at the moment `now`.
    pub fn can_update(&self, now: i32) -> (r: bool)
        ensures
            r == self.readable_at(now),
    {
        if self.running() {
            match self.start {
                Some(start) => {
                    let total: i64 = (self.time as i64) + ((now as i64) - (start as i64));
                    -2147483648 <= total && total <= 2147483647
                },
                None => false,
            }
        } else {
            true
        }
    }

    /// The seconds gathered up to the moment `now`.
    pub fn get_time(&self, now: i32) -> (r: i32)
        requires
            self.readable_at(now),
        ensures
            r == self.elapsed(now),
    {
        if self.running() {
            let start = self.start.unwrap();
            let total: i64 = (self.time as i64) + ((now as i64) - (start as i64));
            total as i32
        } else {
            self.time
        }
    }

    /// Toggles the timer at the moment `now`. A running timer stops and
    /// keeps the time it has gathered; a stopped one starts running. Either
    /// way `now` becomes the start.
    pub fn update(timer: Timer, now: i32) -> (r: Timer)
        requires
            timer.readable_at(now),
        ensures
            timer.toggles_to(&r, now),
            r.well_formed(),
    {
        let time = timer.get_time(now);
        let status = if timer.running() {
            "stopped".to_owned()
        } else {
            "active".to_owned()
        };
        Timer {
            id: timer.id,
            name: timer.name,
            user_id: timer.user_id,
            status,
            time,
            start: Some(now),
        }
    }
}

/// The two status texts differ, so a timer is never both running and
/// stopped.
pub proof fn lemma_status_distinct(t: &Timer)
    ensures
        !(t.is_active() && t.is_stopped()),
{
    reveal_strlit("active");
    reveal_strlit("stopped");
    if t.is_active() && t.is_stopped() {
        assert("active"@.len() == 6);
        assert("stopped"@.len() == 7);
    }
}

/// A toggle always changes the state: the result of toggling a running
/// timer is not running, and the result of toggling any other timer is.
pub proof fn lemma_toggle_flips(t: &Timer, next: &Timer, now: i32)
    requires
        t.toggles_to(next, now),
    ensures
        next.is_active() == !t.is_active(),
{
    lemma_status_distinct(next);
}

/// Stop and start again: a timer that runs since `t0` with nothing gathered,
/// toggled at `now` and then at `later`, is first stopped with `now - t0`
/// seconds, and then runs again since `later` with the same seconds.
pub proof fn lemma_round_trip(
    fresh: &Timer,
    stopped: &Timer,
    resumed: &Timer,
    t0: i32,
    now: i32,
    later: i32,
)
    requires
        fresh.is_active(),
        fresh.time == 0,
        fresh.start == Some(t0),
        t0 <= now,
        fresh.toggles_to(stopped, now),
        stopped.toggles_to(resumed, later),
    ensures
        stopped.is_stopped(),
        !stopped.is_active(),
        stopped.time == now - t0,
        stopped.time >= 0,
        resumed.is_active(),
        resumed.time == stopped.time,
        resumed.start == Some(later),
{
    lemma_status_distinct(stopped);
}

} // verus!
