use overlingo::clock::SessionClock;

#[test]
fn excludes_paused_time() {
    let start: u64 = 1_000_000;
    let mut clock = SessionClock::default();
    clock.start_at(start);
    clock.pause_at(start + 8_000);

    assert_eq!(clock.elapsed_at(start + 30_000) / 1000, 8);

    clock.resume_at(start + 30_000);
    assert_eq!(clock.elapsed_at(start + 35_000) / 1000, 13);
}

#[test]
fn pausing_twice_or_resuming_twice_changes_nothing() {
    let mut clock = SessionClock::new();
    clock.start_at(0);
    clock.pause_at(5_000);
    clock.pause_at(9_000);
    assert_eq!(clock.elapsed_at(20_000), 5_000);
    clock.resume_at(10_000);
    clock.resume_at(15_000);
    assert_eq!(clock.elapsed_at(20_000), 15_000);
}

#[test]
fn an_instant_before_the_start_counts_as_no_time() {
    let mut clock = SessionClock::new();
    clock.start_at(10_000);
    assert_eq!(clock.elapsed_at(4_000), 0);
    clock.reset();
    assert_eq!(clock.elapsed_at(50_000), 0);
}
