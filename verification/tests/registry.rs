use mtt::error::AppError;
use mtt::state::AppState;
use mtt::timer::Timer;

#[test]
fn test_appstate_set_active_timer_nonexisting() {
    let mut state = AppState::default();

    assert_eq!(state.set_timer_active("something").unwrap_err(), AppError::NoSuchTimer);
}

#[test]
fn test_appstate_create_timer() {
    let mut state = AppState::default();
    let timer_name = "timer name";

    state.create_timer(timer_name).unwrap();

    // can't create a second timer with the same name
    assert!(state.create_timer(timer_name).is_none());
}

#[test]
fn test_appstate_get_timer() {
    let mut state = AppState::default();
    let timer_name = "timer name";

    state.create_timer(timer_name).unwrap();

    let timer1 = state.get_timer(timer_name).unwrap();

    let timer2 = state.get_timer(timer_name).unwrap();

    assert!(std::ptr::eq(timer1, timer2));
}

#[test]
fn duplicate_create_keeps_the_registry_intact() {
    let mut state = AppState::default();
    state.create_timer("work").unwrap();
    state.start_named("work", 100).unwrap();

    assert!(state.create_timer("work").is_none());

    // still exactly one timer under the name, untouched by the failed create
    assert_eq!(state.entries().len(), 1);
    let timer = state.get_timer("work").unwrap();
    assert_eq!(timer.current_start, Some(100));
}

#[test]
fn set_active_failure_keeps_previous_selection() {
    let mut state = AppState::default();
    state.create_timer("work").unwrap();
    state.set_timer_active("work").unwrap();

    assert_eq!(state.set_timer_active("absent").unwrap_err(), AppError::NoSuchTimer);
    assert_eq!(state.active_timer_name().as_deref(), Some("work"));
    assert!(state.has_active_timer());
}

#[test]
fn active_timer_is_none_when_unset_or_dangling() {
    let state = AppState::default();
    assert!(state.get_active_timer().is_none());
    assert!(!state.has_active_timer());

    // a selection whose name is gone from the registry acts as no selection
    let dangling = AppState::from_entries(Vec::new(), Some("ghost".to_owned())).unwrap();
    assert!(dangling.get_active_timer().is_none());
    assert!(!dangling.has_active_timer());
    assert_eq!(dangling.active_timer_name().as_deref(), Some("ghost"));
}

#[test]
fn end_to_end_create_start_stop() {
    let mut state = AppState::default();
    let t0: i64 = 1_700_000_000;

    state.create_timer("work").unwrap();
    state.start_named("work", t0).unwrap();
    let record = state.stop_named("work", t0 + 3600, "coding".to_owned()).unwrap();

    assert_eq!(record.start, t0);
    assert_eq!(record.end, t0 + 3600);
    assert_eq!(record.comment, "coding");

    let timer = state.get_timer("work").unwrap();
    assert_eq!(timer.records.len(), 1);
    assert_eq!(timer.records[0].start, t0);
    assert_eq!(timer.records[0].end, t0 + 3600);
    assert_eq!(timer.records[0].comment, "coding");
    assert_eq!(timer.total_duration(), 3600);
    assert!(!timer.is_running());
}

#[test]
fn end_to_end_double_start_fails() {
    let mut state = AppState::default();
    let t0: i64 = 1_700_000_000;

    state.create_timer("work").unwrap();
    state.start_named("work", t0).unwrap();

    let err = state.start_named("work", t0 + 60).unwrap_err();
    assert_eq!(err, AppError::TimerAlreadyRunning);

    let timer = state.get_timer("work").unwrap();
    assert_eq!(timer.current_start, Some(t0));
    assert!(timer.records.is_empty());
}

#[test]
fn start_and_stop_report_missing_timers() {
    let mut state = AppState::default();
    assert_eq!(state.start_named("nope", 5).unwrap_err(), AppError::NoSuchTimer);
    assert_eq!(state.stop_named("nope", 9, "".to_owned()).unwrap_err(), AppError::NoSuchTimer);
    assert_eq!(state.reset_named("nope").unwrap_err(), AppError::NoSuchTimer);

    state.create_timer("idle").unwrap();
    assert_eq!(state.stop_named("idle", 9, "".to_owned()).unwrap_err(), AppError::NoTimerRunning);
}

#[test]
fn abort_discards_the_run_without_a_record() {
    let mut state = AppState::default();

    // nothing selected at all
    assert_eq!(state.abort_active().unwrap_err(), AppError::NoSuchTimer);

    state.create_timer("work").unwrap();
    state.set_timer_active("work").unwrap();

    // selected but idle
    assert_eq!(state.abort_active().unwrap_err(), AppError::NoTimerRunning);

    state.start_named("work", 400).unwrap();
    state.abort_active().unwrap();

    let timer = state.get_timer("work").unwrap();
    assert_eq!(timer.current_start, None);
    assert!(timer.records.is_empty());
}

#[test]
fn reset_named_clears_only_that_timer() {
    let mut state = AppState::default();
    state.create_timer("a").unwrap();
    state.create_timer("b").unwrap();
    state.start_named("a", 10).unwrap();
    state.stop_named("a", 20, "done".to_owned()).unwrap();
    state.start_named("b", 30).unwrap();
    state.stop_named("b", 45, "kept".to_owned()).unwrap();

    state.reset_named("a").unwrap();

    assert!(state.get_timer("a").unwrap().records.is_empty());
    assert_eq!(state.get_timer("b").unwrap().records.len(), 1);
    assert_eq!(state.get_timer("b").unwrap().total_duration(), 15);
}

#[test]
fn from_entries_rejects_duplicate_names() {
    let entries = vec![
        ("same".to_owned(), Timer::default()),
        ("other".to_owned(), Timer::default()),
        ("same".to_owned(), Timer::default()),
    ];
    assert!(AppState::from_entries(entries, None).is_none());

    let ok = AppState::from_entries(
        vec![("same".to_owned(), Timer::default()), ("other".to_owned(), Timer::default())],
        None,
    );
    assert!(ok.is_some());
}
