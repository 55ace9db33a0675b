use vstd::prelude::*;

verus! {

/// One completed interval of a timer: start and end instants, both in whole
/// seconds since the Unix epoch, and a free-text comment. Immutable once
/// created.
#[derive(Debug)]
pub struct TimerRecord {
    pub start: i64,
    pub end: i64,
    pub comment: String,
}

/// The mathematical content of a `TimerRecord`.
pub ghost struct RecordView {
    pub start: int,
    pub end: int,
    pub comment: Seq<char>,
}

/// The elapsed seconds of an interval, clamped to zero when the end precedes
/// the start (a malformed record yields zero rather than an error).
pub open spec fn spec_duration(start: int, end: int) -> int {
    if end >= start {
        end - start
    } else {
        0
    }
}

impl View for TimerRecord {
    type V = RecordView;

    open spec fn view(&self) -> RecordView {
        RecordView {
            start: self.start as int,
            end: self.end as int,
            comment: self.comment@,
        }
    }
}

impl TimerRecord {
    pub fn new(start: i64, end: i64, comment: String) -> (r: TimerRecord)
        ensures
            r@ == (RecordView { start: start as int, end: end as int, comment: comment@ }),
    {
        TimerRecord { start, end, comment }
    }

    /// The elapsed seconds of this record, zero when `end < start`.
    pub fn duration(&self) -> (d: u64)
        ensures
            d == spec_duration(self@.start, self@.end),
    {
        if self.end >= self.start {
            let wide: i128 = self.end as i128 - self.start as i128;
            wide as u64
        } else {
            0
        }
    }
}

} // verus!
