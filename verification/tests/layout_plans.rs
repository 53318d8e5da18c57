use terminal_audio_player::app::FocusPane;
use terminal_audio_player::audio_engine::{PlaybackStatus, PlayerState, Track};
use terminal_audio_player::layout::{
    compact_deck, compact_now_rows, detail_rows, queue_empty_text, rail_meter_rows, tile_rows,
    CompactDeck, TileRow,
    browser_plan, compact_status_message, controls_fit, deck_rows, focus_hint, inspector_is_compact,
    ladder_footer_text, ladder_plan, now_playing_plan, player_plan, queue_plan, screen_plan,
    status_plan, title_bar_extras, title_bar_plan, title_mood, visualizer_plan, NowPlayingPlan,
    PlayerPlan, QueuePlan, StatusPlan, TitleBarPlan, VisualizerPlan,
};

#[test]
fn wide_decks_pick_their_bands_by_height() {
    assert_eq!(player_plan(120, 13), PlayerPlan::Compact);
    assert_eq!(player_plan(120, 19), PlayerPlan::Short);
    assert_eq!(
        player_plan(120, 22),
        PlayerPlan::QueueReentry { now: 6, visualizer: 8, progress: 3, queue: 5 }
    );
    assert_eq!(
        player_plan(120, 30),
        PlayerPlan::GuideReentry { now: 8, visualizer: 9, progress: 3, guide: 4, queue: 6 }
    );
    assert_eq!(player_plan(120, 31), PlayerPlan::Tall { now: 9 });
    assert_eq!(player_plan(60, 14), PlayerPlan::Compact);
    assert_eq!(player_plan(60, 30), PlayerPlan::Narrow);
}

#[test]
fn the_signal_deck_grows_a_rise_then_a_ladder() {
    assert_eq!(visualizer_plan(10, 8), VisualizerPlan::FrameOnly);
    assert_eq!(visualizer_plan(70, 5), VisualizerPlan::Bridge);
    assert_eq!(visualizer_plan(40, 3), VisualizerPlan::Lines);
    assert_eq!(visualizer_plan(30, 3), VisualizerPlan::Wave);
    assert_eq!(visualizer_plan(70, 7), VisualizerPlan::DeckWithRise { side_width: 19 });
    assert_eq!(visualizer_plan(50, 9), VisualizerPlan::DeckWithLadder { side_width: 16 });
    assert_eq!(visualizer_plan(30, 9), VisualizerPlan::Deck);
}

#[test]
fn the_screen_stacks_lanes_when_narrow() {
    let narrow = screen_plan(20, 100, 18);
    assert_eq!((narrow.chrome_height, narrow.stacked, narrow.browser_height), (2, true, 10));
    let wide = screen_plan(40, 150, 30);
    assert_eq!((wide.chrome_height, wide.stacked, wide.browser_height), (3, false, 12));
}

#[test]
fn the_title_bar_adds_controls_and_badges_with_width() {
    assert_eq!(title_bar_plan(2, 200), TitleBarPlan::Flat);
    assert_eq!(title_bar_plan(3, 10), TitleBarPlan::FrameOnly);
    assert_eq!(title_bar_plan(3, 60), TitleBarPlan::Framed);
    assert_eq!(title_bar_plan(3, 100), TitleBarPlan::WithControls { controls_width: 13 });
    assert_eq!(title_bar_plan(3, 130), TitleBarPlan::WithControls { controls_width: 15 });
    assert_eq!(title_bar_extras(100), (true, false));
    assert_eq!(title_bar_extras(120), (true, true));
    assert_eq!(title_mood(60), "  blue-glass deck  ");
    assert!(!controls_fit(10));
    assert!(controls_fit(11));
}

#[test]
fn the_library_lane_drops_the_monitor_when_short() {
    let compact = browser_plan(80, 20, 78, 18);
    assert!(compact.compact);
    assert_eq!(compact.root_label_width, 54);
    assert_eq!(compact.inspector_height, None);
    let roomy = browser_plan(100, 30, 98, 28);
    assert!(!roomy.compact);
    assert_eq!(roomy.root_label_width, 80);
    assert_eq!(roomy.inspector_height, Some(8));
    assert_eq!(browser_plan(100, 13, 98, 11).inspector_height, Some(5));
    assert!(browser_plan(100, 30, 17, 28).frame_only);
    assert!(inspector_is_compact(41, 10));
    assert!(!inspector_is_compact(42, 8));
    assert_eq!(focus_hint(FocusPane::Player), "playback deck active · Tab returns to the library lane");
}

#[test]
fn panels_pick_their_arrangement() {
    assert_eq!(now_playing_plan(30, 1), NowPlayingPlan::FrameOnly);
    assert_eq!(now_playing_plan(30, 4), NowPlayingPlan::Lines);
    assert_eq!(now_playing_plan(40, 6), NowPlayingPlan::Details);
    assert_eq!(now_playing_plan(60, 6), NowPlayingPlan::TileAndDetails);
    assert_eq!(queue_plan(19, 6), QueuePlan::FrameOnly);
    assert_eq!(queue_plan(30, 2), QueuePlan::Two);
    assert_eq!(queue_plan(30, 3), QueuePlan::Three);
    assert_eq!(queue_plan(30, 4), QueuePlan::Four);
    assert_eq!(queue_plan(30, 5), QueuePlan::Full);
    assert_eq!(status_plan(20), StatusPlan::FrameOnly);
    assert_eq!(status_plan(60), StatusPlan::Compact);
    assert_eq!(status_plan(100), StatusPlan::TwoColumns);
    assert_eq!(status_plan(118), StatusPlan::ThreeColumns);
}

#[test]
fn the_deck_and_ladder_rows_follow_height() {
    let short = deck_rows(6);
    assert_eq!((short.spectrum_rows, short.undertow, short.reflection), (2, false, false));
    let lush = deck_rows(9);
    assert_eq!((lush.spectrum_rows, lush.undertow, lush.reflection), (3, true, true));
    let bloom = ladder_plan(8, 17, 6);
    assert!(bloom.blooming && !bloom.frame_only && !bloom.meters_only);
    assert_eq!(bloom.footer_height, 1);
    assert_eq!(ladder_plan(12, 17, 10).footer_height, 2);
    assert!(ladder_plan(6, 17, 4).meters_only);
    assert_eq!(ladder_footer_text(true, &PlaybackStatus::Paused), "the full ladder blooms from the signal rise");
    assert_eq!(ladder_footer_text(false, &PlaybackStatus::Stopped), "blue glass waiting on a cue");
}

#[test]
fn the_compact_ribbon_prefers_the_loaded_track() {
    let mut player = PlayerState::default();
    assert_eq!(compact_status_message(&player, "hello"), "hello");
    player.current_track = Some(Track { path: String::from("a.mp3"), title: String::from("a.mp3") });
    assert_eq!(compact_status_message(&player, "hello"), "a.mp3 · --:--");
}

#[test]
fn the_album_tile_adds_lines_as_it_grows() {
    assert_eq!(tile_rows(2), vec![TileRow::Monogram, TileRow::Time]);
    assert_eq!(tile_rows(3), vec![TileRow::Brand, TileRow::Monogram, TileRow::Time]);
    assert_eq!(tile_rows(6).len(), 6);
    assert_eq!(tile_rows(6)[1], TileRow::State);
    assert_eq!(tile_rows(7)[5], TileRow::Volume);
    assert_eq!(tile_rows(12).len(), 7);
}

#[test]
fn the_detail_lines_appear_by_height() {
    let five = detail_rows(5);
    assert!(!five.source && !five.volume && !five.signal && !five.drive);
    let eight = detail_rows(8);
    assert!(eight.source && eight.volume && eight.signal && !eight.drive);
    assert!(detail_rows(9).drive);
    let narrow = compact_now_rows(20, 2);
    assert!(!narrow.context && !narrow.time && !narrow.queue);
    let roomy = compact_now_rows(40, 4);
    assert!(roomy.context && roomy.time && !roomy.queue);
    assert!(compact_now_rows(42, 2).queue);
}

#[test]
fn the_compact_deck_stacks_lines_by_height() {
    assert_eq!(compact_deck(0), CompactDeck::Wave);
    assert_eq!(compact_deck(2), CompactDeck::HeaderAndWaveCaption);
    assert_eq!(compact_deck(3), CompactDeck::HeaderWaveCaption);
    assert_eq!(compact_deck(4), CompactDeck::HeaderSignatureWaveCaption);
    assert_eq!(compact_deck(5), CompactDeck::Full { spectrum_rows: 1, glow: false });
    assert_eq!(compact_deck(9), CompactDeck::Full { spectrum_rows: 4, glow: true });
    assert_eq!(rail_meter_rows(1), 2);
    assert_eq!(rail_meter_rows(5), 3);
    assert_eq!(rail_meter_rows(20), 4);
    assert!(queue_empty_text().contains("library lane"));
}
