use terminal_audio_player::app::FocusPane;
use terminal_audio_player::audio_engine::{PlaybackStatus, PlayerState, Track};
use terminal_audio_player::browser::{BrowserEntry, EntryKind};
use terminal_audio_player::text::fit_text;
use terminal_audio_player::tui::{
    album_tile_meta_text, album_tile_monogram, animated_marquee, browser_action_hint,
    browser_counts, browser_kind_label, browser_root_label, browser_state_label,
    compact_status_text, compact_time_label, compact_track_context,
    compact_visualizer_header_labels, deck_rating, deck_rating_text, deck_source_labels,
    display_relative_path, entry_badge, spectrum_glyph, format_duration, help_groups, now_playing_context_text,
    now_playing_header_labels, progress_label, queue_counter_text, queue_footer_text,
    queue_marquee_text, queue_row_role, queue_summary_labels, queue_track_name, queue_window,
    ribbon_stack_label, stack_position, status_transport_text, tail_path, title_stack_label,
    title_state_text, track_name_or_hint, track_seed, transport_labels, visualizer_caption,
    visualizer_collection, visualizer_footer, visualizer_header_labels, visualizer_preset,
    visualizer_preset_index, volume_text, wave_caption_widths, wide_deck_guide_reentry_layout,
    wide_queue_reentry_layout, FooterLine, QueueRole,
};

fn sample_player() -> PlayerState {
    PlayerState {
        status: PlaybackStatus::Playing,
        current_track: Some(Track {
            path: String::from("song.wav"),
            title: String::from("Ocean Avenue After Midnight"),
        }),
        volume: 82,
        position: 73_000,
        duration: Some(212_000),
        queue: vec![String::from("one.wav"), String::from("two.wav"), String::from("three.wav")],
        queue_index: Some(1),
        last_error: None,
    }
}

fn with_track(path: &str) -> PlayerState {
    let mut player = sample_player();
    player.current_track = Some(Track {
        path: String::from(path),
        title: String::from("Ocean Avenue After Midnight"),
    });
    player
}

#[test]
fn fit_text_adds_ellipsis_when_needed() {
    assert_eq!(fit_text("abcdef", 4), "abc…");
    assert_eq!(fit_text("ok", 8), "ok");
}

#[test]
fn title_state_text_matches_playback_status() {
    assert_eq!(title_state_text(&PlaybackStatus::Playing), "ON AIR");
    assert_eq!(title_state_text(&PlaybackStatus::Paused), "HELD");
    assert_eq!(title_state_text(&PlaybackStatus::Stopped), "READY");
}

#[test]
fn browser_counts_split_directories_and_files() {
    let entries = vec![
        BrowserEntry {
            path: String::from("music"),
            name: String::from("music"),
            depth: 0,
            kind: EntryKind::Directory,
            expanded: true,
        },
        BrowserEntry {
            path: String::from("music/song.mp3"),
            name: String::from("song.mp3"),
            depth: 1,
            kind: EntryKind::File,
            expanded: false,
        },
        BrowserEntry {
            path: String::from("music/album"),
            name: String::from("album"),
            depth: 1,
            kind: EntryKind::Directory,
            expanded: false,
        },
    ];

    assert_eq!(browser_counts(&entries), (2, 1));
}

#[test]
fn browser_action_hint_for_track_mentions_the_deck() {
    let entry = BrowserEntry {
        path: String::from("music/song.mp3"),
        name: String::from("song.mp3"),
        depth: 1,
        kind: EntryKind::File,
        expanded: false,
    };

    assert_eq!(
        browser_action_hint(Some(&entry)),
        "Enter loads this track into the deck"
    );
}

#[test]
fn wide_queue_reentry_layout_preserves_the_bridge_band() {
    assert_eq!(wide_queue_reentry_layout(19), None);
    assert_eq!(wide_queue_reentry_layout(20), Some((5, 8, 3, 4)));
    assert_eq!(wide_queue_reentry_layout(21), Some((6, 8, 3, 4)));
    assert_eq!(wide_queue_reentry_layout(22), Some((6, 8, 3, 5)));
    assert_eq!(wide_queue_reentry_layout(23), Some((7, 8, 3, 5)));
    assert_eq!(wide_queue_reentry_layout(24), Some((8, 8, 3, 5)));
    assert_eq!(wide_queue_reentry_layout(25), Some((8, 8, 3, 6)));
    assert_eq!(wide_queue_reentry_layout(26), None);
}

#[test]
fn wide_deck_guide_reentry_layout_preserves_the_bridge_band() {
    assert_eq!(wide_deck_guide_reentry_layout(25), None);
    assert_eq!(wide_deck_guide_reentry_layout(26), Some((7, 8, 3, 4, 4)));
    assert_eq!(wide_deck_guide_reentry_layout(27), Some((7, 8, 3, 4, 5)));
    assert_eq!(wide_deck_guide_reentry_layout(28), Some((8, 8, 3, 4, 5)));
    assert_eq!(wide_deck_guide_reentry_layout(29), Some((8, 8, 3, 4, 6)));
    assert_eq!(wide_deck_guide_reentry_layout(30), Some((8, 9, 3, 4, 6)));
    assert_eq!(wide_deck_guide_reentry_layout(31), None);
}

#[test]
fn animated_marquee_leaves_short_text_untouched() {
    assert_eq!(animated_marquee(&sample_player(), "short", 12, 40), "short");
}

#[test]
fn animated_marquee_advances_for_playing_tracks() {
    let mut player = sample_player();
    player.position = 0;
    let first = animated_marquee(&player, "Ocean Avenue After Midnight", 10, 40);
    player.position = 3_000;
    let later = animated_marquee(&player, "Ocean Avenue After Midnight", 10, 40);

    assert_eq!(first.chars().count(), 10);
    assert_eq!(later.chars().count(), 10);
    assert_ne!(first, later);
}

#[test]
fn display_relative_path_prefers_root_relative_form() {
    let root = "/music";
    let child = "/music/ambient/dreams/song.flac";
    assert_eq!(display_relative_path(root, child), "ambient/dreams/song.flac");
    assert_eq!(display_relative_path(root, root), ".");
}

#[test]
fn browser_root_label_prefers_tail_on_tight_widths() {
    let root = "/Users/lucw/.openclaw/workspace/terminal-audio-player";
    assert_eq!(browser_root_label(root, 16), "terminal-audio-…");
    assert_eq!(browser_root_label(root, 28), "workspace/terminal-audio-pl…");
}

#[test]
fn compact_track_context_prefers_parent_folder() {
    let player = with_track("albums/night-drive/ocean-avenue.wav");
    assert_eq!(compact_track_context(&player), "folder · night-drive");
}

#[test]
fn now_playing_context_text_uses_shelf_folder_and_codec() {
    let player = with_track("albums/night-drive/ocean-avenue.flac");
    assert_eq!(
        now_playing_context_text(&player),
        "shelf · albums   folder · night-drive   codec · FLAC"
    );
}

#[test]
fn deck_source_line_surfaces_track_origin_and_length() {
    let player = with_track("albums/night-drive/ocean-avenue.flac");
    let labels = deck_source_labels(&player, 80);
    assert!(labels.iter().any(|l| l.contains("SHELF albums")));
    assert!(labels.iter().any(|l| l.contains("FOLDER night-drive")));
    assert!(labels.iter().any(|l| l.contains("CODEC FLAC")));
    assert!(labels.iter().any(|l| l.contains("LEN 03:32")));
}

#[test]
fn now_playing_header_line_surfaces_collection_preset_and_rating() {
    let labels = now_playing_header_labels(&sample_player(), 80);
    assert!(labels.iter().any(|l| l.contains("NOW PLAYING")));
    assert!(labels.iter().any(|l| l.contains(visualizer_collection())));
    assert!(labels.iter().any(|l| l.contains(visualizer_preset(&sample_player()))));
    assert!(labels.iter().any(|l| l.contains("RATING")));
}

#[test]
fn compact_deck_guide_lines_keep_lane_deck_and_focus_controls_visible() {
    let groups = help_groups(2);
    assert_eq!(groups.len(), 2);
    let text = groups.iter().map(|(label, keys)| format!("{label}{keys}")).collect::<String>();
    assert!(text.contains("Enter cue/play"));
    assert!(text.contains("h/l seek"));
    assert!(text.contains("lane↔deck"));
}

#[test]
fn visualizer_header_line_mentions_current_preset() {
    let labels = visualizer_header_labels(&sample_player(), 60);
    assert!(labels.iter().any(|l| l.contains(visualizer_collection())));
    assert!(labels.iter().any(|l| l.contains(visualizer_preset(&sample_player()))));
    assert!(labels.iter().any(|l| l.contains("REFLECT + GLOW")));
}

#[test]
fn visualizer_caption_references_selected_preset() {
    let caption = visualizer_caption(&sample_player());
    assert!(caption.contains(visualizer_preset(&sample_player())));
    assert!(caption.contains("undertow"));
    assert!(caption.contains("blue-glass glow"));
}

#[test]
fn queue_marquee_text_blends_title_and_context() {
    let player = with_track("albums/night-drive/ocean-avenue.flac");
    let text = queue_marquee_text(&player);
    assert!(text.contains("Ocean Avenue After Midnight"));
    assert!(text.contains("night-drive"));
    assert!(text.contains("FLAC"));
}

#[test]
fn status_transport_text_reports_staged_queue() {
    let mut player = sample_player();
    player.current_track = None;
    player.queue_index = None;
    assert_eq!(status_transport_text(&player), "Stack loaded · 3 tracks waiting in the deck");
}

#[test]
fn transport_line_expands_into_a_transport_cluster_when_space_allows() {
    let text = transport_labels(&sample_player(), 80).concat();
    assert!(text.contains("PREV"));
    assert!(text.contains("NEXT"));
    assert!(text.contains("STOP"));
    assert!(text.contains("01:13 / 03:32"));
}

#[test]
fn queue_footer_line_empty_mentions_library_lane() {
    let player = PlayerState::default();
    assert!(queue_footer_text(&player).contains("library lane"));
}

#[test]
fn compact_time_label_shows_placeholder_when_nothing_is_loaded() {
    let player = PlayerState::default();
    assert_eq!(compact_time_label(&player), "--:--");
}

#[test]
fn visualizer_footer_carries_counter_preset_state_and_caption() {
    match visualizer_footer(&sample_player(), 90) {
        FooterLine::Full { counter, preset, state, caption } => {
            assert!(counter.starts_with("VIS 0"));
            assert!(counter.ends_with("/04"));
            assert_eq!(preset, visualizer_preset(&sample_player()));
            assert_eq!(state.as_deref(), Some("LIVE"));
            assert!(caption.unwrap().contains("crest / undertow / mirror / glow"));
        }
        other => panic!("expected the full footer, got {other:?}"),
    }
    assert!(matches!(visualizer_footer(&sample_player(), 20), FooterLine::Caption(_)));
    assert!(matches!(visualizer_footer(&sample_player(), 30), FooterLine::Arrows(_)));
}

#[test]
fn compact_visualizer_header_leads_with_state_and_preset() {
    let labels = compact_visualizer_header_labels(&sample_player(), 64);
    assert_eq!(labels[0], "LIVE");
    assert_eq!(labels[1], visualizer_preset(&sample_player()));
    assert_eq!(labels[2], visualizer_collection());
    assert_eq!(labels[3], "01:13 / 03:32");
    assert_eq!(compact_visualizer_header_labels(&sample_player(), 30).len(), 2);
}

#[test]
fn durations_are_minutes_and_seconds() {
    assert_eq!(format_duration(0), "00:00");
    assert_eq!(format_duration(73_999), "01:13");
    assert_eq!(format_duration(212_000), "03:32");
    assert_eq!(format_duration(6_000_000), "100:00");
    assert_eq!(progress_label(&sample_player()), "01:13 / 03:32");
    assert_eq!(progress_label(&PlayerState::default()), "--:-- / --:--");
}

#[test]
fn tail_path_keeps_the_last_components() {
    assert_eq!(tail_path("/a/b/c", 2), "b/c");
    assert_eq!(tail_path("a", 0), "a");
    assert_eq!(tail_path("", 2), ".");
    assert_eq!(queue_track_name("/music/x/song.mp3"), "song.mp3");
}

#[test]
fn queue_counters_count_from_one() {
    let player = sample_player();
    assert_eq!(stack_position(&player), Some((2, 3)));
    assert_eq!(queue_counter_text(&player), "2 / 3");
    assert_eq!(ribbon_stack_label(&player), "STACK 2/3");
    assert_eq!(title_stack_label(&player), "STACK 2/3");
    let empty = PlayerState::default();
    assert_eq!(queue_counter_text(&empty), "0 / 0");
    assert_eq!(ribbon_stack_label(&empty), "STACK 0/0");
    assert_eq!(title_stack_label(&empty), "STACK 0");
    assert_eq!(
        queue_summary_labels(&player),
        vec!["STACK 2/3", "ON AIR", "NEXT 1", "01:13"]
    );
    assert_eq!(queue_summary_labels(&empty), vec!["CABINET", "EMPTY", "LOAD TRACK"]);
}

#[test]
fn the_track_name_falls_back_to_a_hint() {
    assert_eq!(track_name_or_hint(&sample_player()), "Ocean Avenue After Midnight");
    assert_eq!(
        track_name_or_hint(&PlayerState::default()),
        "Pick a track in the library lane and press Enter"
    );
}

#[test]
fn the_queue_window_keeps_the_current_row_in_view() {
    let (start, end, current) = queue_window(10, Some(7), 4);
    assert_eq!((start, end, current), (5, 9, 7));
    assert_eq!(queue_window(3, None, 5), (0, 3, 0));
    assert_eq!(queue_row_role(7, Some(7), 7), QueueRole::Air);
    assert_eq!(queue_row_role(8, Some(7), 7), QueueRole::Cue);
}

#[test]
fn presets_and_ratings_stay_in_range() {
    let player = sample_player();
    assert!(visualizer_preset_index(&player) < 4);
    assert_eq!(track_seed(&player), track_seed(&sample_player()));
    let rating = deck_rating(&player);
    assert!((3..=5).contains(&rating));
    assert!(deck_rating_text(&player).starts_with("RATING"));
    assert_eq!(deck_rating(&PlayerState::default()), 0);
}

#[test]
fn the_album_tile_shows_initials_and_codec() {
    let player = sample_player();
    assert_eq!(album_tile_monogram(&player), "OA");
    assert!(album_tile_meta_text(&player, 14).contains("WAV"));
}

#[test]
fn badges_name_the_selection_and_state() {
    let folder = BrowserEntry {
        path: String::from("m/a"),
        name: String::from("a"),
        depth: 0,
        kind: EntryKind::Directory,
        expanded: true,
    };
    assert_eq!(browser_kind_label(Some(&folder)), "FOLDER");
    assert_eq!(browser_kind_label(None), "EMPTY");
    assert!(!browser_state_label(Some(&folder)).is_empty());
    assert_eq!(browser_action_hint(None), browser_action_hint(None));
    assert!(!compact_status_text(FocusPane::Player, PlaybackStatus::Paused).is_empty());
}

#[test]
fn volume_is_shown_in_percent() {
    assert!(volume_text(82).contains("82"));
}

#[test]
fn the_wave_and_caption_share_the_width() {
    let (wave, gap, caption) = wave_caption_widths(80);
    assert_eq!((wave, gap, caption), (43, 3, 34));
    let (wave, gap, caption) = wave_caption_widths(10);
    assert_eq!((wave, gap, caption), (12, 2, 10));
}

#[test]
fn the_monogram_upper_cases_word_initials() {
    let mut player = sample_player();
    player.current_track = Some(Track { path: String::from("x.ogg"), title: String::from("ocean -- avenue") });
    assert_eq!(album_tile_monogram(&player), "OA");
    player.current_track = Some(Track { path: String::from("x.ogg"), title: String::from("!!") });
    assert_eq!(album_tile_monogram(&player), "TAP");
}

#[test]
fn the_queue_marquee_swaps_wide_gaps_for_dots() {
    let player = with_track("albums/night-drive/ocean-avenue.flac");
    assert_eq!(
        queue_marquee_text(&player),
        "Ocean Avenue After Midnight · shelf · albums · folder · night-drive · codec · FLAC"
    );
}

#[test]
fn file_rows_carry_their_extension_in_capitals() {
    let file = BrowserEntry {
        path: String::from("m/a/song.Flac"),
        name: String::from("song.Flac"),
        depth: 1,
        kind: EntryKind::File,
        expanded: false,
    };
    assert_eq!(entry_badge(&file).as_deref(), Some("FLAC"));
    let folder = BrowserEntry { kind: EntryKind::Directory, ..file.clone() };
    assert_eq!(entry_badge(&folder), None);
    let bare = BrowserEntry { path: String::from("m/README"), ..file };
    assert_eq!(entry_badge(&bare), None);
}

#[test]
fn spectrum_cells_round_their_crests() {
    let heights = vec![3, 4, 4, 1, 0, 0, 2];
    assert_eq!(spectrum_glyph(&heights, 1, 4, 4), ('▀', true));
    assert_eq!(spectrum_glyph(&heights, 2, 4, 4), ('▀', true));
    assert_eq!(spectrum_glyph(&heights, 0, 3, 4), ('▇', true));
    assert_eq!(spectrum_glyph(&heights, 1, 1, 4), ('█', true));
    assert_eq!(spectrum_glyph(&heights, 0, 4, 4), ('▪', false));
    assert_eq!(spectrum_glyph(&heights, 6, 1, 4), ('█', true));
    assert_eq!(spectrum_glyph(&heights, 4, 1, 4), ('·', false));
    assert_eq!(spectrum_glyph(&heights, 0, 1, 4), ('█', true));
    assert_eq!(spectrum_glyph(&heights, 5, 2, 4), (' ', false));
    assert_eq!(spectrum_glyph(&heights, 4, 2, 4), (' ', false));
}
