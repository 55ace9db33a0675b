use mtt::error::AppError;
use mtt::record::TimerRecord;
use mtt::timer::Timer;

#[test]
fn test_timerrecord_duration() {
    let duration: u64 = 1234;
    let start: i64 = 1_600_000_000;
    let end: i64 = start + duration as i64;

    let record = TimerRecord::new(start, end, "".to_owned());

    assert_eq!(record.duration(), duration);

    // zero duration
    let record = TimerRecord::new(start, start, "".to_owned());

    assert_eq!(record.duration(), 0);
}

#[test]
fn test_timer_total_duration() {
    let duration: u64 = 1234;
    let start: i64 = 1_600_000_000;
    let end: i64 = start + duration as i64;
    let record = TimerRecord::new(start, end, "".to_owned());

    let duration2: u64 = 321;
    let start2: i64 = 1_600_000_500;
    let end2: i64 = start2 + duration2 as i64;
    let record2 = TimerRecord::new(start2, end2, "Playing solitaire".to_owned());

    let total_duration: u64 = duration + duration2;

    let timer = Timer { records: vec![record, record2], current_start: None };

    assert_eq!(timer.total_duration(), total_duration);
}

#[test]
fn duration_is_zero_when_end_precedes_start() {
    let record = TimerRecord::new(500, 400, "clock went backwards".to_owned());
    assert_eq!(record.duration(), 0);

    let record = TimerRecord::new(i64::MAX, i64::MIN, "".to_owned());
    assert_eq!(record.duration(), 0);
}

#[test]
fn duration_spans_the_full_range() {
    let record = TimerRecord::new(i64::MIN, i64::MAX, "".to_owned());
    assert_eq!(record.duration(), u64::MAX);
}

#[test]
fn total_duration_is_order_independent() {
    let a = || TimerRecord::new(10, 25, "a".to_owned());
    let b = || TimerRecord::new(100, 101, "b".to_owned());
    let c = || TimerRecord::new(7, 3, "c".to_owned());

    let t1 = Timer { records: vec![a(), b(), c()], current_start: None };
    let t2 = Timer { records: vec![c(), a(), b()], current_start: None };

    assert_eq!(t1.total_duration(), 16);
    assert_eq!(t2.total_duration(), 16);
    assert_eq!(t1.total_duration_checked(), Some(16));
}

#[test]
fn start_fails_when_already_running() {
    let mut timer = Timer::default();
    assert!(timer.start_timer(1000).is_ok());

    // a second start fails and changes nothing
    let err = timer.start_timer(2000).unwrap_err();
    assert_eq!(err, AppError::TimerAlreadyRunning);
    assert_eq!(timer.current_start, Some(1000));
    assert!(timer.records.is_empty());
    assert!(timer.is_running());
}

#[test]
fn stop_fails_when_idle() {
    let mut timer = Timer::default();
    let err = timer.stop_timer(2000, "too late".to_owned()).unwrap_err();
    assert_eq!(err, AppError::NoTimerRunning);
    assert_eq!(timer.current_start, None);
    assert!(timer.records.is_empty());
    assert!(!timer.is_running());
}

#[test]
fn start_then_stop_appends_one_record() {
    let mut timer = Timer::default();
    assert!(timer.start_timer(1000).is_ok());
    let record = timer.stop_timer(1600, "errand".to_owned()).unwrap();

    assert_eq!(record.start, 1000);
    assert_eq!(record.end, 1600);
    assert_eq!(record.comment, "errand");

    assert_eq!(timer.records.len(), 1);
    assert_eq!(timer.records[0].start, 1000);
    assert_eq!(timer.records[0].end, 1600);
    assert_eq!(timer.records[0].comment, "errand");
    assert_eq!(timer.current_start, None);
    assert_eq!(timer.total_duration(), 600);
}

#[test]
fn reset_clears_records_and_keeps_the_run() {
    let mut timer = Timer::default();
    timer.start_timer(10).unwrap();
    timer.stop_timer(30, "first".to_owned()).unwrap();
    timer.start_timer(50).unwrap();

    timer.reset();

    assert!(timer.records.is_empty());
    assert_eq!(timer.current_start, Some(50));
    assert_eq!(timer.total_duration(), 0);
}

#[test]
fn current_duration_tracks_the_running_clock() {
    let mut timer = Timer::default();
    assert_eq!(timer.current_duration(100).unwrap_err(), AppError::NoTimerRunning);

    timer.start_timer(100).unwrap();
    assert_eq!(timer.current_duration(160).unwrap(), 60);

    // a clock that ran backwards yields zero, not an error
    assert_eq!(timer.current_duration(40).unwrap(), 0);
}

#[test]
fn error_messages() {
    assert_eq!(AppError::TimerAlreadyRunning.message(), "Timer already running");
    assert_eq!(AppError::NoTimerRunning.message(), "No timer running");
    assert_eq!(AppError::NoSuchTimer.message(), "No timer with this name");
}
