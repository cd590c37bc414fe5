use chess_core::timer::clock_face;
use chess_core::CountdownTimer;

#[test]
fn new_timer_is_stopped_and_full() {
    let timer = CountdownTimer::new(600_000);
    assert!(!timer.is_running());
    assert_eq!(timer.remaining(), 600_000);
}

#[test]
fn stopped_timer_is_unaffected_by_time() {
    let timer = CountdownTimer::new(1_000);
    assert_eq!(timer.remaining_after(0), 1_000);
    assert_eq!(timer.remaining_after(999), 1_000);
    assert_eq!(timer.remaining_after(u128::MAX), 1_000);
    assert_eq!(timer.remaining(), 1_000);
    assert_eq!(timer.remaining(), 1_000);
}

#[test]
fn running_timer_counts_down_and_clamps_at_zero() {
    let mut timer = CountdownTimer::new(1_000);
    timer.start();
    assert!(timer.is_running());
    assert_eq!(timer.remaining_after(0), 1_000);
    assert_eq!(timer.remaining_after(1), 999);
    assert_eq!(timer.remaining_after(300), 700);
    assert_eq!(timer.remaining_after(999), 1);
    assert_eq!(timer.remaining_after(1_000), 0);
    assert_eq!(timer.remaining_after(1_001), 0);
    assert_eq!(timer.remaining_after(u128::MAX), 0);
}

#[test]
fn running_timer_never_shows_more_as_time_goes_by() {
    let mut timer = CountdownTimer::new(50);
    timer.start();
    let mut shown = timer.remaining_after(0);
    for elapsed in 1..80u128 {
        let next = timer.remaining_after(elapsed);
        assert!(next <= shown);
        shown = next;
    }
    assert_eq!(shown, 0);
}

#[test]
fn stop_after_takes_the_elapsed_time_off() {
    let mut timer = CountdownTimer::new(1_000);
    timer.start();
    timer.stop_after(300);
    assert!(!timer.is_running());
    assert_eq!(timer.remaining(), 700);
    timer.start();
    timer.stop_after(5_000);
    assert!(!timer.is_running());
    assert_eq!(timer.remaining(), 0);
    timer.start();
    timer.stop_after(1);
    assert_eq!(timer.remaining(), 0);
}

#[test]
fn starting_keeps_what_is_stored() {
    let mut timer = CountdownTimer::new(1_000);
    timer.start();
    timer.stop_after(0);
    assert_eq!(timer.remaining(), 1_000);
}

#[test]
fn real_clock_never_adds_time() {
    let mut timer = CountdownTimer::new(600_000);
    timer.start();
    let first = timer.remaining();
    let second = timer.remaining();
    assert!(first <= 600_000);
    assert!(second <= first);
    timer.stop();
    assert!(!timer.is_running());
    let stopped = timer.remaining();
    assert!(stopped <= second);
    assert_eq!(timer.remaining(), stopped);
}

#[test]
fn clock_face_shows_minutes_and_seconds() {
    assert_eq!(clock_face(600_000), (10, 0));
    assert_eq!(clock_face(61_999), (1, 1));
    assert_eq!(clock_face(59_999), (0, 59));
    assert_eq!(clock_face(999), (0, 0));
    assert_eq!(clock_face(0), (0, 0));
    assert_eq!(clock_face(3_600_000), (60, 0));
}
