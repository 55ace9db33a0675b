use vstd::prelude::*;

use crate::error::AppError;
use crate::record::{RecordView, TimerRecord};
use crate::timer::{Timer, TimerView};

verus! {

/// The mathematical content of an `AppState`: the registry as an association
/// sequence from timer name to timer, in creation order, plus the selected
/// active-timer name.
pub ghost struct StateView {
    pub timers: Seq<(Seq<char>, TimerView)>,
    pub active_timer: Option<Seq<char>>,
}

/// No two entries of the registry share a name.
pub open spec fn spec_unique_names(timers: Seq<(Seq<char>, TimerView)>) -> bool {
    forall|i: int, j: int|
        0 <= i < j < timers.len() ==> (#[trigger] timers[i]).0 != (#[trigger] timers[j]).0
}

/// Some entry of the registry carries this name.
pub open spec fn spec_contains(timers: Seq<(Seq<char>, TimerView)>, name: Seq<char>) -> bool {
    exists|i: int| 0 <= i < timers.len() && (#[trigger] timers[i]).0 == name
}

/// The persisted root object: every timer, keyed by its unique name, plus
/// which timer (if any) is the "active" one that commands without an
/// explicit name target. The active name may dangle; a dangling name is
/// treated as "no active timer".
#[derive(Debug)]
pub struct AppState {
    timers: Vec<(String, Timer)>,
    active_timer: Option<String>,
}

impl View for AppState {
    type V = StateView;

    closed spec fn view(&self) -> StateView {
        StateView {
            timers: self.timers@.map_values(|e: (String, Timer)| (e.0@, e.1@)),
            active_timer: match self.active_timer {
                Some(n) => Some(n@),
                None => None,
            },
        }
    }
}

impl Default for AppState {
    /// A fresh state: no timers, no active selection.
    fn default() -> (r: Self)
        ensures
            r@.timers == Seq::<(Seq<char>, TimerView)>::empty(),
            r@.active_timer is None,
            r.wf(),
    {
        let s = AppState { timers: Vec::new(), active_timer: None };
        proof {
            assert(s@.timers =~= Seq::<(Seq<char>, TimerView)>::empty());
        }
        s
    }
}

impl AppState {
    /// Well-formedness: registry names are unique, so a name identifies at
    /// most one timer.
    pub open spec fn wf(&self) -> bool {
        spec_unique_names(self@.timers)
    }

    /// The index of the entry carrying `name`, if any.
    fn find_index(&self, name: &str) -> (r: Option<usize>)
        ensures
            match r {
                Some(i) => 0 <= i < self@.timers.len() && self@.timers[i as int].0 == name@,
                None => !spec_contains(self@.timers, name@),
            },
    {
        let key: String = name.to_owned();
        let mut i: usize = 0;
        while i < self.timers.len()
            invariant
                i <= self.timers@.len(),
                key@ == name@,
                forall|j: int| 0 <= j < i ==> (#[trigger] self@.timers[j]).0 != name@,
            decreases self.timers@.len() - i,
        {
            if self.timers[i].0 == key {
                return Some(i);
            }
            i = i + 1;
        }
        None
    }

    /// Read-only lookup of a timer by name.
    pub fn get_timer(&self, name: &str) -> (r: Option<&Timer>)
        ensures
            match r {
                Some(t) => exists|i: int|
                    0 <= i < self@.timers.len() && (#[trigger] self@.timers[i]).0 == name@
                        && t@ == self@.timers[i].1,
                None => !spec_contains(self@.timers, name@),
            },
    {
        match self.find_index(name) {
            Some(i) => Some(&self.timers[i].1),
            None => None,
        }
    }

    /// Starts the timer carrying `name`. Fails with `NoSuchTimer` when no
    /// timer carries `name`, and with `TimerAlreadyRunning` when that timer
    /// is already running; either failure changes nothing.
    pub fn start_named(&mut self, name: &str, start_time: i64) -> (r: Result<(), AppError>)
        ensures
            final(self)@.active_timer == old(self)@.active_timer,
            match r {
                Ok(_) => exists|i: int|
                    {
                        &&& 0 <= i < old(self)@.timers.len()
                        &&& (#[trigger] old(self)@.timers[i]).0 == name@
                        &&& old(self)@.timers[i].1.current_start is None
                        &&& final(self)@.timers == old(self)@.timers.update(
                            i,
                            (
                                name@,
                                TimerView {
                                    records: old(self)@.timers[i].1.records,
                                    current_start: Some(start_time as int),
                                },
                            ),
                        )
                    },
                Err(e) => {
                    &&& final(self)@.timers == old(self)@.timers
                    &&& match e {
                        AppError::NoSuchTimer => !spec_contains(old(self)@.timers, name@),
                        AppError::TimerAlreadyRunning => exists|i: int|
                            0 <= i < old(self)@.timers.len() && (#[trigger] old(
                                self,
                            )@.timers[i]).0 == name@ && old(self)@.timers[i].1.current_start
                                is Some,
                        AppError::NoTimerRunning => false,
                    }
                },
            },
    {
        match self.find_index(name) {
            Some(i) => {
                let ghost gi = i as int;
                let r = self.timers[i].1.start_timer(start_time);
                proof {
                    if r is Ok {
                        assert(self@.timers =~= old(self)@.timers.update(
                            gi,
                            (
                                name@,
                                TimerView {
                                    records: old(self)@.timers[gi].1.records,
                                    current_start: Some(start_time as int),
                                },
                            ),
                        ));
                    } else {
                        assert(self@.timers =~= old(self)@.timers);
                    }
                }
                r
            },
            None => Err(AppError::NoSuchTimer),
        }
    }

    /// Stops the timer carrying `name`, appending exactly one record of the
    /// finished run and returning a copy of it. Fails with `NoSuchTimer`
    /// when no timer carries `name`, and with `NoTimerRunning` when that
    /// timer is idle; either failure changes nothing.
    pub fn stop_named(&mut self, name: &str, stop_time: i64, comment: String) -> (r: Result<
        TimerRecord,
        AppError,
    >)
        ensures
            final(self)@.active_timer == old(self)@.active_timer,
            match r {
                Ok(rec) => exists|i: int|
                    {
                        &&& 0 <= i < old(self)@.timers.len()
                        &&& (#[trigger] old(self)@.timers[i]).0 == name@
                        &&& old(self)@.timers[i].1.current_start == Some(rec@.start)
                        &&& rec@.end == stop_time as int
                        &&& rec@.comment == comment@
                        &&& final(self)@.timers == old(self)@.timers.update(
                            i,
                            (
                                name@,
                                TimerView {
                                    records: old(self)@.timers[i].1.records.push(rec@),
                                    current_start: None,
                                },
                            ),
                        )
                    },
                Err(e) => {
                    &&& final(self)@.timers == old(self)@.timers
                    &&& match e {
                        AppError::NoSuchTimer => !spec_contains(old(self)@.timers, name@),
                        AppError::NoTimerRunning => exists|i: int|
                            0 <= i < old(self)@.timers.len() && (#[trigger] old(
                                self,
                            )@.timers[i]).0 == name@ && old(self)@.timers[i].1.current_start
                                is None,
                        AppError::TimerAlreadyRunning => false,
                    }
                },
            },
    {
        match self.find_index(name) {
            Some(i) => {
                let ghost gi = i as int;
                let r = self.timers[i].1.stop_timer(stop_time, comment);
                proof {
                    match &r {
                        Ok(rec) => {
                            assert(self@.timers =~= old(self)@.timers.update(
                                gi,
                                (
                                    name@,
                                    TimerView {
                                        records: old(self)@.timers[gi].1.records.push(rec@),
                                        current_start: None,
                                    },
                                ),
                            ));
                        },
                        Err(_) => {
                            assert(self@.timers =~= old(self)@.timers);
                        },
                    }
                }
                r
            },
            None => Err(AppError::NoSuchTimer),
        }
    }

    /// Clears the record log of the timer carrying `name`, leaving any
    /// in-progress run as it was. Fails with `NoSuchTimer`, changing
    /// nothing, when no timer carries `name`.
    pub fn reset_named(&mut self, name: &str) -> (r: Result<(), AppError>)
        ensures
            final(self)@.active_timer == old(self)@.active_timer,
            match r {
                Ok(_) => exists|i: int|
                    {
                        &&& 0 <= i < old(self)@.timers.len()
                        &&& (#[trigger] old(self)@.timers[i]).0 == name@
                        &&& final(self)@.timers == old(self)@.timers.update(
                            i,
                            (
                                name@,
                                TimerView {
                                    records: Seq::<RecordView>::empty(),
                                    current_start: old(self)@.timers[i].1.current_start,
                                },
                            ),
                        )
                    },
                Err(e) => {
                    &&& e == AppError::NoSuchTimer
                    &&& !spec_contains(old(self)@.timers, name@)
                    &&& *final(self) == *old(self)
                },
            },
    {
        match self.find_index(name) {
            Some(i) => {
                let ghost gi = i as int;
                self.timers[i].1.reset();
                proof {
                    assert(self@.timers =~= old(self)@.timers.update(
                        gi,
                        (
                            name@,
                            TimerView {
                                records: Seq::<RecordView>::empty(),
                                current_start: old(self)@.timers[gi].1.current_start,
                            },
                        ),
                    ));
                }
                Ok(())
            },
            None => Err(AppError::NoSuchTimer),
        }
    }

    /// The timer selected as active, when the selection is set and its name
    /// is still present; "none" both when no selection is set and when the
    /// selection dangles.
    pub fn get_active_timer(&self) -> (r: Option<&Timer>)
        ensures
            match self@.active_timer {
                Some(name) => match r {
                    Some(t) => exists|i: int|
                        0 <= i < self@.timers.len() && (#[trigger] self@.timers[i]).0 == name && t@
                            == self@.timers[i].1,
                    None => !spec_contains(self@.timers, name),
                },
                None => r is None,
            },
    {
        match &self.active_timer {
            Some(timer_name) => self.get_timer(timer_name.as_str()),
            None => None,
        }
    }

    /// Whether `get_active_timer` would return a timer.
    pub fn has_active_timer(&self) -> (r: bool)
        ensures
            r == match self@.active_timer {
                Some(name) => spec_contains(self@.timers, name),
                None => false,
            },
    {
        match &self.active_timer {
            Some(timer_name) => self.find_index(timer_name.as_str()).is_some(),
            None => false,
        }
    }

    /// Selects `name` as the active timer. Fails with `NoSuchTimer`, leaving
    /// the selection unchanged, when no timer carries `name`.
    pub fn set_timer_active(&mut self, name: &str) -> (r: Result<(), AppError>)
        ensures
            final(self)@.timers == old(self)@.timers,
            match r {
                Ok(_) => spec_contains(old(self)@.timers, name@) && final(self)@.active_timer
                    == Some(name@),
                Err(e) => {
                    &&& e == AppError::NoSuchTimer
                    &&& !spec_contains(old(self)@.timers, name@)
                    &&& final(self)@.active_timer == old(self)@.active_timer
                },
            },
    {
        match self.find_index(name) {
            Some(_) => {
                self.active_timer = Some(name.to_owned());
                Ok(())
            },
            None => Err(AppError::NoSuchTimer),
        }
    }

    /// Creates a fresh idle timer under `name` and returns a handle to it.
    /// Returns `None`, changing nothing, when a timer already carries `name`:
    /// a duplicate name never overwrites.
    pub fn create_timer(&mut self, name: &str) -> (r: Option<&Timer>)
        requires
            old(self).wf(),
        ensures
            final(self).wf(),
            final(self)@.active_timer == old(self)@.active_timer,
            match r {
                Some(t) => {
                    &&& !spec_contains(old(self)@.timers, name@)
                    &&& t@.records == Seq::<RecordView>::empty()
                    &&& t@.current_start is None
                    &&& final(self)@.timers == old(self)@.timers.push((name@, t@))
                },
                None => spec_contains(old(self)@.timers, name@) && *final(self) == *old(self),
            },
    {
        match self.find_index(name) {
            Some(_) => None,
            None => {
                let key: String = name.to_owned();
                self.timers.push((key, Timer::default()));
                proof {
                    let pushed = self@.timers[self@.timers.len() - 1];
                    assert(self@.timers =~= old(self)@.timers.push(pushed));
                }
                let n = self.timers.len();
                Some(&self.timers[n - 1].1)
            },
        }
    }

    /// Discards the in-progress run of the active timer without recording
    /// anything. Fails with `NoSuchTimer` when no active timer resolves, and
    /// with `NoTimerRunning` when the active timer is idle; either failure
    /// changes nothing.
    pub fn abort_active(&mut self) -> (r: Result<(), AppError>)
        ensures
            final(self)@.active_timer == old(self)@.active_timer,
            match r {
                Ok(_) => exists|i: int|
                    {
                        &&& 0 <= i < old(self)@.timers.len()
                        &&& old(self)@.active_timer == Some(
                            (#[trigger] old(self)@.timers[i]).0,
                        )
                        &&& old(self)@.timers[i].1.current_start is Some
                        &&& final(self)@.timers == old(self)@.timers.update(
                            i,
                            (
                                old(self)@.timers[i].0,
                                TimerView {
                                    records: old(self)@.timers[i].1.records,
                                    current_start: None,
                                },
                            ),
                        )
                    },
                Err(e) => {
                    &&& final(self)@.timers == old(self)@.timers
                    &&& *final(self) == *old(self)
                    &&& match old(self)@.active_timer {
                        Some(name) => {
                            &&& spec_contains(old(self)@.timers, name) ==> (e
                                == AppError::NoTimerRunning && exists|i: int|
                                0 <= i < old(self)@.timers.len() && (#[trigger] old(
                                    self,
                                )@.timers[i]).0 == name && old(self)@.timers[i].1.current_start
                                    is None)
                            &&& !spec_contains(old(self)@.timers, name) ==> e
                                == AppError::NoSuchTimer
                        },
                        None => e == AppError::NoSuchTimer,
                    }
                },
            },
    {
        let name: String = match &self.active_timer {
            Some(n) => n.clone(),
            None => {
                return Err(AppError::NoSuchTimer);
            },
        };
        match self.find_index(name.as_str()) {
            Some(i) => {
                if self.timers[i].1.current_start.is_some() {
                    let ghost gi = i as int;
                    self.timers[i].1.current_start = None;
                    proof {
                        assert(self@.timers =~= old(self)@.timers.update(
                            gi,
                            (
                                old(self)@.timers[gi].0,
                                TimerView {
                                    records: old(self)@.timers[gi].1.records,
                                    current_start: None,
                                },
                            ),
                        ));
                    }
                    Ok(())
                } else {
                    Err(AppError::NoTimerRunning)
                }
            },
            None => Err(AppError::NoSuchTimer),
        }
    }

    /// The registry entries, in creation order: name and timer pairs.
    pub fn entries(&self) -> (r: &Vec<(String, Timer)>)
        ensures
            r@.map_values(|e: (String, Timer)| (e.0@, e.1@)) == self@.timers,
    {
        &self.timers
    }

    /// The selected active-timer name, set or not, without resolving it
    /// against the registry.
    pub fn active_timer_name(&self) -> (r: &Option<String>)
        ensures
            match r {
                Some(n) => self@.active_timer == Some(n@),
                None => self@.active_timer is None,
            },
    {
        &self.active_timer
    }

    /// Rebuilds a state from plain entries, as read back from persistence.
    /// Returns `None` exactly when two entries share a name; otherwise the
    /// state holds the given entries and selection verbatim.
    pub fn from_entries(entries: Vec<(String, Timer)>, active_timer: Option<String>) -> (r: Option<
        AppState,
    >)
        ensures
            match r {
                Some(s) => {
                    &&& s.wf()
                    &&& s@.timers == entries@.map_values(|e: (String, Timer)| (e.0@, e.1@))
                    &&& s@.active_timer == match active_timer {
                        Some(n) => Some(n@),
                        None => None,
                    }
                },
                None => !spec_unique_names(
                    entries@.map_values(|e: (String, Timer)| (e.0@, e.1@)),
                ),
            },
    {
        let ghost tv = entries@.map_values(|e: (String, Timer)| (e.0@, e.1@));
        let mut i: usize = 0;
        while i < entries.len()
            invariant
                i <= entries@.len(),
                tv == entries@.map_values(|e: (String, Timer)| (e.0@, e.1@)),
                forall|p: int, q: int| 0 <= p < q < i ==> (#[trigger] tv[p]).0 != (#[trigger] tv[q]).0,
            decreases entries@.len() - i,
        {
            let mut j: usize = 0;
            while j < i
                invariant
                    j <= i < entries@.len(),
                    tv == entries@.map_values(|e: (String, Timer)| (e.0@, e.1@)),
                    forall|p: int, q: int| 0 <= p < q < i ==> (#[trigger] tv[p]).0 != (#[trigger] tv[q]).0,
                    forall|p: int| 0 <= p < j ==> (#[trigger] tv[p]).0 != tv[i as int].0,
                decreases i - j,
            {
                if entries[j].0 == entries[i].0 {
                    proof {
                        assert(0 <= j < i < tv.len());
                        assert(tv[j as int].0 == tv[i as int].0);
                        assert(!spec_unique_names(tv));
                    }
                    return None;
                }
                j = j + 1;
            }
            i = i + 1;
        }
        let s = AppState { timers: entries, active_timer };
        Some(s)
    }
}

} // verus!
