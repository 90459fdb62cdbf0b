use overlingo::updates::{
    download_percent, due, found, may_check, progress_to_announce, Preferences, Stage,
    UpdateFlow, CHECK_INTERVAL_SECONDS,
};

#[test]
fn a_fresh_install_checks_and_then_waits_out_the_interval() {
    assert!(due(None));
    assert!(!due(Some(now_seconds())));
    assert!(due(Some(now_seconds() - CHECK_INTERVAL_SECONDS)));
}

#[test]
fn a_timestamp_in_the_future_does_not_block_the_next_check() {
    assert!(due(Some(now_seconds() + CHECK_INTERVAL_SECONDS)));
}

#[test]
fn a_failed_check_does_not_block_the_next_automatic_one() {
    let preferences = Preferences::default();
    assert!(may_check(Stage::Failed, &preferences, false));
    assert!(may_check(Stage::Idle, &preferences, false));
    assert!(may_check(Stage::UpToDate, &preferences, false));
}

#[test]
fn a_found_update_and_work_in_flight_are_left_alone() {
    let preferences = Preferences::default();
    assert!(!found(Stage::Idle) && !found(Stage::UpToDate) && !found(Stage::Failed));
    for stage in [Stage::Available, Stage::Ready] {
        assert!(found(stage), "{stage:?}");
        assert!(!may_check(stage, &preferences, false), "{stage:?}");
        assert!(may_check(stage, &preferences, true), "{stage:?}");
    }
    for stage in [Stage::Checking, Stage::Downloading] {
        assert!(!may_check(stage, &preferences, false), "{stage:?}");
        assert!(!may_check(stage, &preferences, true), "{stage:?}");
    }
}

#[test]
fn the_switch_and_the_interval_only_gate_the_automatic_path() {
    let off = Preferences {
        auto_check: false,
        last_checked_at: None,
    };
    assert!(!may_check(Stage::Idle, &off, false));
    assert!(may_check(Stage::Idle, &off, true));

    let recent = Preferences {
        auto_check: true,
        last_checked_at: Some(now_seconds()),
    };
    assert!(!may_check(Stage::Idle, &recent, false));
    assert!(may_check(Stage::Idle, &recent, true));
}

fn holding(stage: Stage, payload: bool) -> UpdateFlow {
    UpdateFlow {
        stage,
        payload: if payload { Some(Vec::new()) } else { None },
        ..UpdateFlow::new(Preferences::default())
    }
}

#[test]
fn a_background_check_only_speaks_when_it_finds_something() {
    let mut inner = holding(Stage::Checking, false);
    assert!(inner.settle(None, Ok(None), false));
    assert_eq!(inner.stage, Stage::Idle);

    let mut inner = holding(Stage::Checking, false);
    assert!(!inner.settle(None, Err("offline"), false));
    assert_eq!((inner.stage, inner.error), (Stage::Idle, None));

    let mut inner = holding(Stage::Checking, false);
    assert!(inner.settle(None, Ok(Some("1.2.0")), false));
    assert_eq!(inner.stage, Stage::Available);
}

#[test]
fn a_forced_check_answers_either_way() {
    let mut inner = holding(Stage::Checking, false);
    inner.settle(None, Ok(None), true);
    assert_eq!(inner.stage, Stage::UpToDate);

    let mut inner = holding(Stage::Checking, false);
    inner.settle(None, Err("offline"), true);
    assert_eq!(inner.stage, Stage::Failed);
    assert_eq!(inner.error.as_deref(), Some("offline"));
}

#[test]
fn a_download_in_hand_is_kept_only_for_the_same_release() {
    let mut inner = holding(Stage::Checking, true);
    inner.settle(Some("1.2.0"), Ok(Some("1.2.0")), true);
    assert_eq!(inner.stage, Stage::Ready);
    assert!(inner.payload.is_some());

    let mut inner = holding(Stage::Checking, true);
    inner.settle(Some("1.2.0"), Ok(Some("1.3.0")), true);
    assert_eq!(inner.stage, Stage::Available);
    assert!(inner.payload.is_none());

    let mut inner = holding(Stage::Checking, true);
    inner.settle(Some("1.2.0"), Ok(None), true);
    assert_eq!(inner.stage, Stage::UpToDate);
    assert!(inner.payload.is_none());
}

#[test]
fn preferences_default_to_checking() {
    let preferences = Preferences::default();
    assert!(preferences.auto_check);
    assert_eq!(preferences.last_checked_at, None);
}

#[test]
fn a_completed_check_restarts_the_interval() {
    let mut inner = holding(Stage::Checking, false);
    assert!(inner.settle_at(None, Ok(None), true, 1_000));
    assert_eq!(inner.preferences.last_checked_at, Some(1_000));
    let mut flow = UpdateFlow::new(inner.preferences);
    assert!(!flow.begin_check_at(false, 1_000 + CHECK_INTERVAL_SECONDS - 1));
    assert!(flow.begin_check_at(false, 1_000 + CHECK_INTERVAL_SECONDS));
    assert_eq!(flow.stage, Stage::Checking);
    assert!(!flow.begin_check_at(true, 0));
}

#[test]
fn a_download_runs_from_available_to_ready() {
    let mut flow = holding(Stage::Available, false);
    assert!(!flow.begin_download(false));
    assert!(flow.begin_download(true));
    assert_eq!(flow.stage, Stage::Downloading);
    flow.finish_download(Ok(vec![1, 2, 3]));
    assert_eq!(flow.stage, Stage::Ready);
    assert_eq!(flow.take_payload(true), Some(vec![1, 2, 3]));
    assert!(flow.payload.is_none());
    flow.install_failed(vec![1, 2, 3], "denied".into());
    assert_eq!(flow.stage, Stage::Ready);
    assert!(flow.payload.is_some());
    let mut failed = holding(Stage::Downloading, false);
    failed.finish_download(Err("network".into()));
    assert_eq!(failed.stage, Stage::Failed);
    assert_eq!(failed.error.as_deref(), Some("network"));
}

#[test]
fn progress_is_announced_only_when_the_percentage_moves() {
    assert_eq!(download_percent(50, Some(200)), Some(25));
    assert_eq!(download_percent(500, Some(200)), Some(100));
    assert_eq!(download_percent(5, Some(0)), None);
    assert_eq!(download_percent(5, None), None);
    assert_eq!(progress_to_announce(Some(25), 51, Some(200)), None);
    assert_eq!(progress_to_announce(Some(25), 52, Some(200)), Some(26));
}

/// The clock in Unix seconds, as the library reads it.
fn now_seconds() -> i64 {
    std::time::SystemTime::now()
        .duration_since(std::time::UNIX_EPOCH)
        .map(|elapsed| elapsed.as_secs() as i64)
        .unwrap_or(0)
}
