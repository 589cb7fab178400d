use tsubame::session::{bounded_worker_channel, SessionConfig, StreamPreset, WorkerCommand};

#[test]
fn presets_match_design() {
    assert_eq!(StreamPreset::Game.dimensions(), (1920, 1080, 60));
    assert_eq!(StreamPreset::Work.dimensions(), (1920, 1080, 30));
    assert_eq!(StreamPreset::Light.dimensions(), (1280, 720, 30));
}

#[test]
fn session_defaults_to_game() {
    assert_eq!(SessionConfig::default().preset, StreamPreset::Game);
}

#[test]
fn game_preset_requests_sixty_fps_capture() {
    assert_eq!(StreamPreset::Game.dimensions().2, 60);
}

#[test]
fn work_and_light_presets_request_thirty_fps_capture() {
    assert_eq!(StreamPreset::Work.dimensions().2, 30);
    assert_eq!(StreamPreset::Light.dimensions().2, 30);
}

#[test]
fn bounded_queue_never_blocks_on_overflow() {
    let (tx, _rx) = bounded_worker_channel(1);
    tx.try_send(WorkerCommand::Start).unwrap();
    assert!(tx.try_send(WorkerCommand::Stop).is_err());
}

#[test]
fn zero_capacity_worker_channel_is_raised_to_one() {
    let (tx, rx) = bounded_worker_channel(0);
    assert_eq!(tx.capacity(), Some(1));
    tx.try_send(WorkerCommand::Shutdown).unwrap();
    assert_eq!(rx.try_recv().unwrap(), WorkerCommand::Shutdown);
}

#[test]
fn worker_channel_keeps_requested_capacity() {
    let (tx, rx) = bounded_worker_channel(3);
    assert_eq!(tx.capacity(), Some(3));
    assert!(rx.is_empty());
}
