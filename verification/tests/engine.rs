use terminal_audio_player::audio_engine::{
    clamp_seek_target, AudioCommand, AudioError, BackendLog, EngineController, EngineEvent,
    PlaybackBackend, PlaybackStatus,
};

#[derive(Default)]
struct MockBackend {
    position: u64,
    finished: bool,
    volume: u32,
    loads: Vec<(String, u64, u32, bool)>,
    play_calls: usize,
    pause_calls: usize,
    stop_calls: usize,
    fail_play: bool,
}

impl PlaybackBackend for MockBackend {
    fn exchanges(&self) -> BackendLog {
        unreachable!("the exchange log is a record for the verifier, never read at run time")
    }

    fn reported_position(&self) -> u64 {
        self.position
    }

    fn reported_finished(&self) -> bool {
        self.finished
    }

    fn load(&mut self, path: &str, start_at: u64, volume: u32, paused: bool) -> Result<Option<u64>, AudioError> {
        self.position = start_at;
        self.finished = false;
        self.volume = volume;
        self.loads.push((path.to_string(), start_at, volume, paused));
        Ok(Some(180_000))
    }

    fn play(&mut self) -> Result<(), AudioError> {
        self.play_calls += 1;
        if self.fail_play {
            Err(AudioError::Backend(String::from("device lost")))
        } else {
            Ok(())
        }
    }

    fn pause(&mut self) -> Result<(), AudioError> {
        self.pause_calls += 1;
        Ok(())
    }

    fn stop(&mut self) -> Result<(), AudioError> {
        self.stop_calls += 1;
        self.position = 0;
        Ok(())
    }

    fn set_volume(&mut self, volume: u32) -> Result<(), AudioError> {
        self.volume = volume;
        Ok(())
    }

    fn position(&self) -> u64 {
        self.position
    }

    fn track_finished(&self) -> bool {
        self.finished
    }
}

fn sample_playlist() -> Vec<String> {
    vec![String::from("one.mp3"), String::from("two.flac"), String::from("three.ogg")]
}

fn title(controller: &EngineController<MockBackend>) -> Option<String> {
    controller.state.current_track.as_ref().map(|track| track.title.clone())
}

#[test]
fn load_and_play_updates_state() {
    let backend = MockBackend::default();
    let mut controller = EngineController::new(backend);
    let playlist = sample_playlist();

    controller.handle_command(AudioCommand::LoadAndPlay {
        path: playlist[0].clone(),
        playlist: playlist.clone(),
        index: 0,
    });

    assert_eq!(controller.state.status, PlaybackStatus::Playing);
    assert_eq!(controller.state.queue_index, Some(0));
    assert_eq!(controller.state.queue, playlist);
    assert_eq!(title(&controller).as_deref(), Some("one.mp3"));
}

#[test]
fn toggle_pause_round_trip_updates_state() {
    let backend = MockBackend::default();
    let mut controller = EngineController::new(backend);
    let playlist = sample_playlist();

    controller.handle_command(AudioCommand::LoadAndPlay {
        path: playlist[0].clone(),
        playlist,
        index: 0,
    });
    controller.handle_command(AudioCommand::TogglePause);
    assert_eq!(controller.state.status, PlaybackStatus::Paused);

    controller.handle_command(AudioCommand::TogglePause);
    assert_eq!(controller.state.status, PlaybackStatus::Playing);
}

#[test]
fn seek_clamps_to_zero() {
    let backend = MockBackend { position: 3_000, ..MockBackend::default() };
    let mut controller = EngineController::new(backend);
    let playlist = sample_playlist();

    controller.handle_command(AudioCommand::LoadAndPlay {
        path: playlist[0].clone(),
        playlist,
        index: 0,
    });
    controller.backend.position = 3_000;
    controller.handle_command(AudioCommand::SeekBy(-5));

    assert_eq!(controller.state.position, 0);
    assert_eq!(controller.backend.loads.last().map(|entry| entry.1), Some(0));
}

#[test]
fn next_and_previous_walk_the_queue() {
    let backend = MockBackend::default();
    let mut controller = EngineController::new(backend);
    let playlist = sample_playlist();

    controller.handle_command(AudioCommand::LoadAndPlay {
        path: playlist[1].clone(),
        playlist,
        index: 1,
    });
    controller.handle_command(AudioCommand::Next);
    assert_eq!(controller.state.queue_index, Some(2));
    assert_eq!(title(&controller).as_deref(), Some("three.ogg"));

    controller.backend.position = 0;
    controller.handle_command(AudioCommand::Previous);
    assert_eq!(controller.state.queue_index, Some(1));
    assert_eq!(title(&controller).as_deref(), Some("two.flac"));
}

#[test]
fn previous_restarts_current_track_when_already_in_progress() {
    let backend = MockBackend { position: 12_000, ..MockBackend::default() };
    let mut controller = EngineController::new(backend);
    let playlist = sample_playlist();

    controller.handle_command(AudioCommand::LoadAndPlay {
        path: playlist[1].clone(),
        playlist,
        index: 1,
    });
    controller.backend.position = 12_000;

    controller.handle_command(AudioCommand::Previous);

    assert_eq!(controller.state.queue_index, Some(1));
    assert_eq!(controller.state.position, 0);
    assert_eq!(
        controller.backend.loads.last().map(|entry| (entry.0.as_str(), entry.1)),
        Some(("two.flac", 0))
    );
}

#[test]
fn load_and_play_clamps_invalid_queue_index() {
    let backend = MockBackend::default();
    let mut controller = EngineController::new(backend);
    let playlist = sample_playlist();

    controller.handle_command(AudioCommand::LoadAndPlay {
        path: playlist[2].clone(),
        playlist,
        index: usize::MAX,
    });

    assert_eq!(controller.state.queue_index, Some(2));
}

#[test]
fn volume_adjustment_is_clamped() {
    let backend = MockBackend::default();
    let mut controller = EngineController::new(backend);

    // -2.0 and +3.0 in units of full gain are -200 and +300 percentage points.
    controller.handle_command(AudioCommand::AdjustVolume(-200));
    assert_eq!(controller.state.volume, 0);

    controller.handle_command(AudioCommand::AdjustVolume(300));
    assert_eq!(controller.state.volume, 200);
}

#[test]
fn new_controller_sets_default_volume_on_the_backend() {
    let controller = EngineController::new(MockBackend::default());
    assert_eq!(controller.state.volume, 80);
    assert_eq!(controller.backend.volume, 80);
    assert_eq!(controller.state.status, PlaybackStatus::Stopped);
    assert!(controller.state.queue.is_empty());
}

#[test]
fn small_volume_steps_move_by_exact_points() {
    let mut controller = EngineController::new(MockBackend::default());
    controller.handle_command(AudioCommand::AdjustVolume(5));
    assert_eq!(controller.state.volume, 85);
    assert_eq!(controller.backend.volume, 85);
    controller.handle_command(AudioCommand::AdjustVolume(-10));
    assert_eq!(controller.state.volume, 75);
}

#[test]
fn load_reports_duration_and_title_and_an_update_event() {
    let mut controller = EngineController::new(MockBackend::default());
    let events = controller.handle_command(AudioCommand::LoadAndPlay {
        path: String::from("albums/night/two.flac"),
        playlist: vec![String::from("albums/night/two.flac")],
        index: 0,
    });
    assert_eq!(controller.state.duration, Some(180_000));
    assert_eq!(title(&controller).as_deref(), Some("two.flac"));
    assert_eq!(events.len(), 1);
    assert!(matches!(events[0], EngineEvent::StateUpdated(_)));
    assert_eq!(controller.backend.loads.last().map(|l| l.3), Some(false));
}

#[test]
fn next_past_the_end_stops_the_deck() {
    let mut controller = EngineController::new(MockBackend::default());
    let playlist = sample_playlist();
    controller.handle_command(AudioCommand::LoadAndPlay {
        path: playlist[2].clone(),
        playlist,
        index: 2,
    });
    controller.handle_command(AudioCommand::Next);
    assert_eq!(controller.state.status, PlaybackStatus::Stopped);
    assert_eq!(controller.backend.stop_calls, 1);
    assert_eq!(controller.state.queue_index, Some(2));
}

#[test]
fn stop_resets_the_position() {
    let mut controller = EngineController::new(MockBackend::default());
    let playlist = sample_playlist();
    controller.handle_command(AudioCommand::LoadAndPlay {
        path: playlist[0].clone(),
        playlist,
        index: 0,
    });
    controller.backend.position = 42_000;
    controller.handle_command(AudioCommand::Stop);
    assert_eq!(controller.state.status, PlaybackStatus::Stopped);
    assert_eq!(controller.state.position, 0);
}

#[test]
fn toggle_without_a_track_does_nothing() {
    let mut controller = EngineController::new(MockBackend::default());
    controller.handle_command(AudioCommand::TogglePause);
    assert_eq!(controller.state.status, PlaybackStatus::Stopped);
    assert_eq!(controller.backend.play_calls, 0);
    assert_eq!(controller.backend.pause_calls, 0);
}

#[test]
fn backend_failure_is_reported_before_the_state() {
    let mut controller = EngineController::new(MockBackend::default());
    let playlist = sample_playlist();
    controller.handle_command(AudioCommand::LoadAndPlay {
        path: playlist[0].clone(),
        playlist,
        index: 0,
    });
    controller.handle_command(AudioCommand::TogglePause);
    controller.backend.fail_play = true;
    let events = controller.handle_command(AudioCommand::TogglePause);
    assert_eq!(events.len(), 2);
    match &events[0] {
        EngineEvent::Error(message) => assert_eq!(message, "device lost"),
        other => panic!("expected an error first, got {other:?}"),
    }
    assert!(matches!(events[1], EngineEvent::StateUpdated(_)));
    assert_eq!(controller.state.last_error.as_deref(), Some("device lost"));
    assert_eq!(AudioError::Backend(String::from("x")).message(), "x");
}

#[test]
fn tick_moves_on_when_a_track_finishes() {
    let mut controller = EngineController::new(MockBackend::default());
    let playlist = sample_playlist();
    controller.handle_command(AudioCommand::LoadAndPlay {
        path: playlist[0].clone(),
        playlist,
        index: 0,
    });
    controller.backend.finished = true;
    let events = controller.tick();
    assert_eq!(controller.state.queue_index, Some(1));
    assert_eq!(title(&controller).as_deref(), Some("two.flac"));
    assert_eq!(events.len(), 1);
}

#[test]
fn tick_is_quiet_when_nothing_moved() {
    let mut controller = EngineController::new(MockBackend::default());
    let events = controller.tick();
    assert!(events.is_empty());
    controller.backend.position = 1_500;
    let events = controller.tick();
    assert_eq!(events.len(), 1);
    assert_eq!(controller.state.position, 1_500);
}

#[test]
fn seek_target_is_clamped_to_the_track() {
    assert_eq!(clamp_seek_target(3_000, -5, Some(180_000)), 0);
    assert_eq!(clamp_seek_target(10_000, 5, Some(180_000)), 15_000);
    assert_eq!(clamp_seek_target(178_000, 5, Some(180_000)), 180_000);
    assert_eq!(clamp_seek_target(178_000, 5, None), 183_000);
}

#[test]
fn snapshot_copies_the_state() {
    let mut controller = EngineController::new(MockBackend::default());
    controller.handle_command(AudioCommand::AdjustVolume(5));
    let copy = controller.snapshot();
    assert_eq!(copy.volume, 85);
    assert_eq!(copy.status, controller.state.status);
}
