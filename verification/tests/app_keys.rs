use std::sync::mpsc;

use terminal_audio_player::app::{App, FocusPane, KeyCode, KeyInput};
use terminal_audio_player::audio_engine::{AudioCommand, EngineEvent, PlayerState, Track};
use terminal_audio_player::browser::{DirListing, DiskEntry, DiskSnapshot};

fn file(path: &str) -> DiskEntry {
    DiskEntry { path: path.to_string(), is_dir: false, is_file: true }
}

fn dir(path: &str) -> DiskEntry {
    DiskEntry { path: path.to_string(), is_dir: true, is_file: false }
}

/// A folder `/music` holding one track.
fn one_song_disk() -> DiskSnapshot {
    DiskSnapshot {
        listings: vec![DirListing { dir: String::from("/music"), children: Ok(vec![file("/music/song.wav")]) }],
        tree: vec![dir("/music"), file("/music/song.wav")],
    }
}

fn empty_disk() -> DiskSnapshot {
    DiskSnapshot {
        listings: vec![DirListing { dir: String::from("/music"), children: Ok(Vec::new()) }],
        tree: vec![dir("/music")],
    }
}

fn press(code: KeyCode) -> KeyInput {
    KeyInput::press(code)
}

#[test]
fn space_starts_selected_track_when_nothing_is_loaded() {
    let expected_path = String::from("/music/song.wav");
    let (command_tx, command_rx) = mpsc::channel();
    let (_event_tx, event_rx) = mpsc::channel();
    let mut app = App::new(String::from("/music"), &one_song_disk(), command_tx, event_rx).unwrap();

    app.on_key(press(KeyCode::Char(' ')));

    match command_rx.recv().unwrap() {
        AudioCommand::LoadAndPlay { path, playlist, index } => {
            assert_eq!(path, expected_path);
            assert_eq!(playlist, vec![expected_path.clone()]);
            assert_eq!(index, 0);
        }
        other => panic!("expected LoadAndPlay, got {other:?}"),
    }
}

#[test]
fn space_toggles_pause_when_track_is_already_loaded() {
    let (command_tx, command_rx) = mpsc::channel();
    let (_event_tx, event_rx) = mpsc::channel();
    let mut app = App::new(String::from("/music"), &one_song_disk(), command_tx, event_rx).unwrap();
    let mut player = PlayerState::default();
    player.current_track = Some(Track { path: String::from("/music/song.wav"), title: String::from("song.wav") });
    app.apply_engine_event(EngineEvent::StateUpdated(player));

    app.on_key(press(KeyCode::Char(' ')));

    match command_rx.recv().unwrap() {
        AudioCommand::TogglePause => {}
        other => panic!("expected TogglePause, got {other:?}"),
    }
}

#[test]
fn tab_updates_status_line_to_lane_language() {
    let (command_tx, _command_rx) = mpsc::channel();
    let (_event_tx, event_rx) = mpsc::channel();
    let mut app = App::new(String::from("/music"), &empty_disk(), command_tx, event_rx).unwrap();

    app.on_key(press(KeyCode::Tab));
    assert_eq!(app.status_line(), "Playback deck active · j/k trims volume · Space toggles transport");

    app.on_key(press(KeyCode::Tab));
    assert_eq!(app.status_line(), "Library lane active · j/k browse · Enter loads or opens");
}

#[test]
fn a_new_app_greets_and_focuses_the_library() {
    let (command_tx, _command_rx) = mpsc::channel();
    let (_event_tx, event_rx) = mpsc::channel();
    let app = App::new(String::from("/music"), &one_song_disk(), command_tx, event_rx).unwrap();
    assert_eq!(app.focus(), FocusPane::Browser);
    assert!(!app.should_quit());
    assert_eq!(
        app.status_line(),
        "Library lane ready · Enter loads · Tab swaps lanes · n/p step the stack · q quits"
    );
    assert_eq!(app.player().volume, 80);
    assert_eq!(app.browser().entries().len(), 1);
}

#[test]
fn an_unreadable_root_refuses_the_app() {
    let (command_tx, _command_rx) = mpsc::channel();
    let (_event_tx, event_rx) = mpsc::channel();
    let disk = DiskSnapshot {
        listings: vec![DirListing { dir: String::from("/music"), children: Err(String::from("permission denied")) }],
        tree: Vec::new(),
    };
    match App::new(String::from("/music"), &disk, command_tx, event_rx) {
        Err(error) => assert!(error.message().contains("permission denied")),
        Ok(_) => panic!("expected the root to be refused"),
    }
}

#[test]
fn quit_keys_end_the_app_without_commands() {
    for key in [
        press(KeyCode::Char('q')),
        press(KeyCode::Esc),
        KeyInput { code: KeyCode::Char('c'), control: true, press: true },
    ] {
        let (command_tx, command_rx) = mpsc::channel();
        let (_event_tx, event_rx) = mpsc::channel();
        let mut app = App::new(String::from("/music"), &empty_disk(), command_tx, event_rx).unwrap();
        app.on_key(key);
        assert!(app.should_quit());
        assert!(command_rx.try_recv().is_err());
    }
}

#[test]
fn key_releases_are_ignored() {
    let (command_tx, command_rx) = mpsc::channel();
    let (_event_tx, event_rx) = mpsc::channel();
    let mut app = App::new(String::from("/music"), &empty_disk(), command_tx, event_rx).unwrap();
    app.on_key(KeyInput { code: KeyCode::Char('q'), control: false, press: false });
    app.on_key(KeyInput { code: KeyCode::Tab, control: false, press: false });
    assert!(!app.should_quit());
    assert_eq!(app.focus(), FocusPane::Browser);
    assert!(command_rx.try_recv().is_err());
}

#[test]
fn deck_keys_trim_the_volume_by_five_points() {
    let (command_tx, command_rx) = mpsc::channel();
    let (_event_tx, event_rx) = mpsc::channel();
    let mut app = App::new(String::from("/music"), &empty_disk(), command_tx, event_rx).unwrap();
    app.on_key(press(KeyCode::Tab));
    app.on_key(press(KeyCode::Char('j')));
    app.on_key(press(KeyCode::Char('k')));
    app.on_key(press(KeyCode::Char('h')));
    app.on_key(press(KeyCode::Char('n')));
    assert!(matches!(command_rx.try_recv(), Ok(AudioCommand::AdjustVolume(-5))));
    assert!(matches!(command_rx.try_recv(), Ok(AudioCommand::AdjustVolume(5))));
    assert!(matches!(command_rx.try_recv(), Ok(AudioCommand::SeekBy(-5))));
    assert!(matches!(command_rx.try_recv(), Ok(AudioCommand::Next)));
}

#[test]
fn a_lost_engine_ends_the_app_with_a_message() {
    let (command_tx, command_rx) = mpsc::channel();
    let (_event_tx, event_rx) = mpsc::channel();
    let mut app = App::new(String::from("/music"), &empty_disk(), command_tx, event_rx).unwrap();
    drop(command_rx);
    app.on_key(press(KeyCode::Char('s')));
    assert!(app.should_quit());
    assert!(app.status_line().starts_with("audio engine disconnected: "));
}

#[test]
fn engine_reports_are_taken_in_oldest_first() {
    let (command_tx, _command_rx) = mpsc::channel();
    let (event_tx, event_rx) = mpsc::channel();
    let mut app = App::new(String::from("/music"), &empty_disk(), command_tx, event_rx).unwrap();
    app.drain_engine_events();
    assert_eq!(app.player().volume, 80);
    let mut player = PlayerState::default();
    player.volume = 120;
    event_tx.send(EngineEvent::StateUpdated(player)).unwrap();
    event_tx.send(EngineEvent::Error(String::from("device lost"))).unwrap();
    let mut later = PlayerState::default();
    later.volume = 45;
    event_tx.send(EngineEvent::StateUpdated(later)).unwrap();
    app.drain_engine_events();
    assert_eq!(app.status_line(), "device lost");
    assert_eq!(app.player().volume, 45);
}

#[test]
fn enter_on_a_folder_asks_for_a_refresh_and_shows_its_tracks() {
    let disk = DiskSnapshot {
        listings: vec![
            DirListing { dir: String::from("/music"), children: Ok(vec![dir("/music/Album")]) },
            DirListing { dir: String::from("/music/Album"), children: Ok(vec![file("/music/Album/a.mp3")]) },
        ],
        tree: vec![dir("/music"), dir("/music/Album"), file("/music/Album/a.mp3")],
    };
    let (command_tx, command_rx) = mpsc::channel();
    let (_event_tx, event_rx) = mpsc::channel();
    let mut app = App::new(String::from("/music"), &disk, command_tx, event_rx).unwrap();
    assert!(app.on_key(press(KeyCode::Enter)));
    app.refresh(&disk).unwrap();
    assert_eq!(app.browser().entries().len(), 2);
    assert!(!app.on_key(press(KeyCode::Down)));
    assert!(!app.on_key(press(KeyCode::Enter)));
    match command_rx.try_recv() {
        Ok(AudioCommand::LoadAndPlay { path, playlist, index }) => {
            assert_eq!(path, "/music/Album/a.mp3");
            assert_eq!(playlist, vec![String::from("/music/Album/a.mp3")]);
            assert_eq!(index, 0);
        }
        other => panic!("expected LoadAndPlay, got {other:?}"),
    }
    assert_eq!(app.status_line(), "Playing selection · Space pause/resume · h/l seek · n/p next/prev");
}

#[test]
fn shutdown_asks_the_engine_to_stop() {
    let (command_tx, command_rx) = mpsc::channel();
    let (_event_tx, event_rx) = mpsc::channel();
    let mut app = App::new(String::from("/music"), &empty_disk(), command_tx, event_rx).unwrap();
    app.shutdown();
    assert!(matches!(command_rx.try_recv(), Ok(AudioCommand::Shutdown)));
    assert!(!app.should_quit());
}
