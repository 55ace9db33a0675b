use vstd::prelude::*;

use crate::error::AppError;
use crate::record::{spec_duration, RecordView, TimerRecord};

verus! {

/// A single stopwatch: the log of completed records, in completion order,
/// and the start instant of an in-progress run (`None` means idle). At most
/// one run is in progress at any time, by construction.
#[derive(Debug)]
pub struct Timer {
    pub records: Vec<TimerRecord>,
    pub current_start: Option<i64>,
}

/// The mathematical content of a `Timer`.
pub ghost struct TimerView {
    pub records: Seq<RecordView>,
    pub current_start: Option<int>,
}

impl View for Timer {
    type V = TimerView;

    open spec fn view(&self) -> TimerView {
        TimerView {
            records: self.records@.map_values(|r: TimerRecord| r@),
            current_start: match self.current_start {
                Some(t) => Some(t as int),
                None => None,
            },
        }
    }
}

/// The summed durations of a sequence of records, in seconds.
pub open spec fn spec_total(rs: Seq<RecordView>) -> int
    decreases rs.len(),
{
    if rs.len() == 0 {
        0
    } else {
        spec_total(rs.drop_last()) + spec_duration(rs.last().start, rs.last().end)
    }
}

/// The duration sum as a fold operand, for relating `spec_total` to
/// sequence folds.
pub open spec fn add_duration() -> spec_fn(RecordView, int) -> int {
    |r: RecordView, acc: int| acc + spec_duration(r.start, r.end)
}

pub proof fn lemma_total_nonneg(rs: Seq<RecordView>)
    ensures
        spec_total(rs) >= 0,
    decreases rs.len(),
{
    if rs.len() > 0 {
        lemma_total_nonneg(rs.drop_last());
    }
}

/// Appending one record adds exactly that record's duration to the total.
pub proof fn lemma_total_push(rs: Seq<RecordView>, r: RecordView)
    ensures
        spec_total(rs.push(r)) == spec_total(rs) + spec_duration(r.start, r.end),
{
    assert(rs.push(r).drop_last() =~= rs);
}

pub proof fn lemma_total_take_succ(rs: Seq<RecordView>, i: int)
    requires
        0 <= i < rs.len(),
    ensures
        spec_total(rs.take(i + 1)) == spec_total(rs.take(i)) + spec_duration(
            rs[i].start,
            rs[i].end,
        ),
{
    assert(rs.take(i + 1).drop_last() =~= rs.take(i));
}

pub proof fn lemma_total_take_le(rs: Seq<RecordView>, i: int)
    requires
        0 <= i <= rs.len(),
    ensures
        spec_total(rs.take(i)) <= spec_total(rs),
    decreases rs.len() - i,
{
    if i == rs.len() {
        assert(rs.take(i) =~= rs);
    } else {
        lemma_total_take_succ(rs, i);
        lemma_total_take_le(rs, i + 1);
    }
}

proof fn lemma_total_fold(rs: Seq<RecordView>, v: int)
    ensures
        rs.fold_right(add_duration(), v) == spec_total(rs) + v,
    decreases rs.len(),
{
    if rs.len() > 0 {
        lemma_total_fold(rs.drop_last(), add_duration()(rs.last(), v));
    }
}

/// Stopping a run started at `t` at an instant `t2 >= t` appends one record
/// whose duration is `t2 - t`, so the total grows by exactly `t2 - t`.
pub proof fn lemma_stop_adds_duration(rs: Seq<RecordView>, t: int, t2: int, c: Seq<char>)
    requires
        t <= t2,
    ensures
        spec_total(rs.push(RecordView { start: t, end: t2, comment: c })) == spec_total(rs) + (t2
            - t),
{
    lemma_total_push(rs, RecordView { start: t, end: t2, comment: c });
}

/// The total duration of a record log does not depend on the order of the
/// records: any two logs holding the same records sum to the same total.
pub proof fn lemma_total_permutation(a: Seq<RecordView>, b: Seq<RecordView>)
    requires
        a.to_multiset() == b.to_multiset(),
    ensures
        spec_total(a) == spec_total(b),
{
    lemma_total_fold(a, 0);
    lemma_total_fold(b, 0);
    assert(vstd::seq_lib::commutative_foldr(add_duration()));
    vstd::seq_lib::lemma_fold_right_permutation(a, b, add_duration(), 0);
}

impl Default for Timer {
    /// A fresh timer: no records, idle.
    fn default() -> (r: Self)
        ensures
            r@.records == Seq::<RecordView>::empty(),
            r@.current_start is None,
    {
        let t = Timer { records: Vec::new(), current_start: None };
        proof {
            assert(t@.records =~= Seq::<RecordView>::empty());
        }
        t
    }
}

impl Timer {
    /// Starts a run. Fails with `TimerAlreadyRunning`, changing nothing, when
    /// a run is already in progress; otherwise the timer begins running at
    /// `start_time`, its records untouched.
    pub fn start_timer(&mut self, start_time: i64) -> (r: Result<(), AppError>)
        ensures
            match r {
                Ok(_) => {
                    &&& old(self)@.current_start is None
                    &&& final(self)@.current_start == Some(start_time as int)
                    &&& final(self)@.records == old(self)@.records
                },
                Err(e) => {
                    &&& e == AppError::TimerAlreadyRunning
                    &&& old(self)@.current_start is Some
                    &&& *final(self) == *old(self)
                },
            },
    {
        if self.current_start.is_some() {
            return Err(AppError::TimerAlreadyRunning);
        }
        self.current_start = Some(start_time);
        Ok(())
    }

    /// Stops the in-progress run. Fails with `NoTimerRunning`, changing
    /// nothing, when the timer is idle; otherwise appends exactly one record
    /// from the run's start to `stop_time`, leaves the timer idle, and
    /// returns a copy of the appended record.
    pub fn stop_timer(&mut self, stop_time: i64, comment: String) -> (r: Result<
        TimerRecord,
        AppError,
    >)
        ensures
            match r {
                Ok(rec) => {
                    &&& old(self)@.current_start == Some(rec@.start)
                    &&& rec@.end == stop_time as int
                    &&& rec@.comment == comment@
                    &&& final(self)@.records == old(self)@.records.push(rec@)
                    &&& final(self)@.current_start is None
                },
                Err(e) => {
                    &&& e == AppError::NoTimerRunning
                    &&& old(self)@.current_start is None
                    &&& *final(self) == *old(self)
                },
            },
    {
        match self.current_start {
            Some(current_start) => {
                let returned = TimerRecord::new(current_start, stop_time, comment.clone());
                self.records.push(TimerRecord::new(current_start, stop_time, comment));
                self.current_start = None;
                proof {
                    assert(self@.records =~= old(self)@.records.push(returned@));
                }
                Ok(returned)
            },
            None => Err(AppError::NoTimerRunning),
        }
    }

    /// The sum of the durations of all completed records, recomputed from
    /// the current log. The caller keeps the log's total within `u64`, as a
    /// sum of clock differences always is in practice.
    pub fn total_duration(&self) -> (d: u64)
        requires
            spec_total(self@.records) <= u64::MAX,
        ensures
            d == spec_total(self@.records),
    {
        let mut acc: u64 = 0;
        let mut i: usize = 0;
        while i < self.records.len()
            invariant
                0 <= i <= self.records.len(),
                acc == spec_total(self@.records.take(i as int)),
                spec_total(self@.records) <= u64::MAX,
            decreases self.records.len() - i,
        {
            let d = self.records[i].duration();
            proof {
                lemma_total_take_succ(self@.records, i as int);
                lemma_total_take_le(self@.records, i as int + 1);
                lemma_total_nonneg(self@.records.take(i as int));
            }
            acc = acc + d;
            i = i + 1;
        }
        proof {
            assert(self@.records.take(self.records@.len() as int) =~= self@.records);
        }
        acc
    }

    /// The sum of the durations of all completed records, `None` when that
    /// sum does not fit in `u64`.
    pub fn total_duration_checked(&self) -> (d: Option<u64>)
        ensures
            match d {
                Some(v) => v == spec_total(self@.records) && spec_total(self@.records)
                    <= u64::MAX,
                None => spec_total(self@.records) > u64::MAX,
            },
    {
        let mut acc: u64 = 0;
        let mut i: usize = 0;
        while i < self.records.len()
            invariant
                0 <= i <= self.records.len(),
                acc == spec_total(self@.records.take(i as int)),
            decreases self.records.len() - i,
        {
            let d = self.records[i].duration();
            proof {
                lemma_total_take_succ(self@.records, i as int);
            }
            acc = match acc.checked_add(d) {
                Some(next) => next,
                None => {
                    proof {
                        lemma_total_take_le(self@.records, i as int + 1);
                    }
                    return None;
                },
            };
            i = i + 1;
        }
        proof {
            assert(self@.records.take(self.records@.len() as int) =~= self@.records);
        }
        Some(acc)
    }

    /// The elapsed seconds of the in-progress run as of `now`, zero when
    /// the clock ran backwards. Fails with `NoTimerRunning` when the timer
    /// is idle.
    pub fn current_duration(&self, now: i64) -> (r: Result<u64, AppError>)
        ensures
            match r {
                Ok(d) => self@.current_start matches Some(cs) && d == spec_duration(
                    cs,
                    now as int,
                ),
                Err(e) => e == AppError::NoTimerRunning && self@.current_start is None,
            },
    {
        match self.current_start {
            Some(cs) => {
                if now >= cs {
                    let wide: i128 = now as i128 - cs as i128;
                    Ok(wide as u64)
                } else {
                    Ok(0)
                }
            },
            None => Err(AppError::NoTimerRunning),
        }
    }

    /// Whether a run is in progress.
    pub fn is_running(&self) -> (r: bool)
        ensures
            r == (self@.current_start is Some),
    {
        self.current_start.is_some()
    }

    /// Clears the completed-record log, leaving any in-progress run as it
    /// was.
    pub fn reset(&mut self)
        ensures
            final(self)@.records == Seq::<RecordView>::empty(),
            final(self)@.current_start == old(self)@.current_start,
    {
        self.records = Vec::new();
        proof {
            assert(self@.records =~= Seq::<RecordView>::empty());
        }
    }
}

} // verus!
