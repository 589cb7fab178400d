use std::time::Duration;
use tsubame::recording::frames_due;

#[test]
fn ten_seconds_at_sixty_fps_is_six_hundred_frames() {
    assert_eq!(frames_due(Duration::from_secs(10), 60), 600);
}

#[test]
fn half_second_at_thirty_fps_is_fifteen_frames() {
    assert_eq!(frames_due(Duration::from_millis(500), 30), 15);
}

#[test]
fn wall_clock_not_callback_count_controls_duration() {
    assert_eq!(frames_due(Duration::from_secs(2), 60), 120);
}

#[test]
fn zero_fps_is_zero_frames_and_partial_frames_round_down() {
    assert_eq!(frames_due(Duration::from_secs(5), 0), 0);
    assert_eq!(frames_due(Duration::from_millis(16), 60), 0);
    assert_eq!(frames_due(Duration::from_millis(17), 60), 1);
}
