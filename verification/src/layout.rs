//! How the screen is divided: which panels are drawn, in which arrangement
//! and with which heights, as the terminal's size changes.
use crate::app::FocusPane;
use crate::audio_engine::{PlaybackStatus, PlayerState};
use vstd::prelude::*;

verus! {

/// The whole screen, inside its frame.
#[derive(Debug, Clone, Copy, PartialEq, Eq, Structural)]
pub struct ScreenPlan {
    /// Height of the title bar and of the status ribbon.
    pub chrome_height: u16,
    /// Library above deck (narrow screens) rather than side by side.
    pub stacked: bool,
    /// Height of the library when stacked.
    pub browser_height: u16,
}

pub open spec fn screen_plan_spec(content_height: u16, main_width: u16, main_height: u16) -> ScreenPlan {
    ScreenPlan {
        chrome_height: if content_height < 26 {
            2
        } else {
            3
        },
        stacked: main_width < 110,
        browser_height: if main_height < 22 {
            10
        } else {
            12
        },
    }
}

pub fn screen_plan(content_height: u16, main_width: u16, main_height: u16) -> (p: ScreenPlan)
    ensures
        p == screen_plan_spec(content_height, main_width, main_height),
{
    ScreenPlan {
        chrome_height: if content_height < 26 {
            2
        } else {
            3
        },
        stacked: main_width < 110,
        browser_height: if main_height < 22 {
            10
        } else {
            12
        },
    }
}

/// The title bar's arrangement.
#[derive(Debug, Clone, Copy, PartialEq, Eq, Structural)]
pub enum TitleBarPlan {
    /// One unframed line.
    Flat,
    /// A frame too narrow for anything inside.
    FrameOnly,
    /// A frame around the title line.
    Framed,
    /// A frame around the title line and the window controls, which take
    /// `controls_width` columns.
    WithControls { controls_width: u16 },
}

pub open spec fn title_bar_plan_spec(height: u16, inner_width: u16) -> TitleBarPlan {
    if height < 3 {
        TitleBarPlan::Flat
    } else if inner_width < 16 {
        TitleBarPlan::FrameOnly
    } else if inner_width < 72 {
        TitleBarPlan::Framed
    } else {
        TitleBarPlan::WithControls {
            controls_width: if inner_width >= 120 {
                15
            } else {
                13
            },
        }
    }
}

pub fn title_bar_plan(height: u16, inner_width: u16) -> (p: TitleBarPlan)
    ensures
        p == title_bar_plan_spec(height, inner_width),
{
    if height < 3 {
        TitleBarPlan::Flat
    } else if inner_width < 16 {
        TitleBarPlan::FrameOnly
    } else if inner_width < 72 {
        TitleBarPlan::Framed
    } else {
        TitleBarPlan::WithControls {
            controls_width: if inner_width >= 120 {
                15
            } else {
                13
            },
        }
    }
}

pub open spec fn mood_by_width_spec(width: u16) -> Seq<char> {
    if width < 72 {
        "  blue-glass deck  "@
    } else if width < 96 {
        "  blue-glass signal deck  "@
    } else {
        "  blue-glass signal deck • cue stack shimmer  "@
    }
}

/// The title bar's tagline for a bar `width` columns wide.
pub fn title_mood(width: u16) -> (r: &'static str)
    ensures
        r@ == mood_by_width_spec(width),
{
    if width < 72 {
        "  blue-glass deck  "
    } else if width < 96 {
        "  blue-glass signal deck  "
    } else {
        "  blue-glass signal deck • cue stack shimmer  "
    }
}

/// Both lane tabs fit from 94 columns on; the stack badge from 112 on; the
/// window controls shrink to a close button under 11 columns.
pub open spec fn title_shows_both_tabs(width: u16) -> bool {
    width >= 94
}

pub open spec fn title_shows_stack(width: u16) -> bool {
    width >= 112
}

pub fn title_bar_extras(width: u16) -> (r: (bool, bool))
    ensures
        r == (title_shows_both_tabs(width), title_shows_stack(width)),
{
    (width >= 94, width >= 112)
}

pub fn controls_fit(width: usize) -> (r: bool)
    ensures
        r == (width >= 11),
{
    width >= 11
}

/// The library lane's arrangement.
#[derive(Debug, Clone, Copy, PartialEq, Eq, Structural)]
pub struct BrowserPlan {
    /// The narrow form: no framed tree, no inspector.
    pub compact: bool,
    /// Columns left for the root's name in the title.
    pub root_label_width: u16,
    /// Nothing fits inside the frame.
    pub frame_only: bool,
    /// Height of the lane monitor under the tree, when there is one.
    pub inspector_height: Option<u16>,
}

pub open spec fn browser_plan_spec(width: u16, height: u16, inner_width: u16, inner_height: u16) -> BrowserPlan {
    let compact = width < 84 || height < 12;
    BrowserPlan {
        compact,
        root_label_width: if compact {
            if width >= 26 {
                (width - 26) as u16
            } else {
                0
            }
        } else if width >= 20 {
            (width - 20) as u16
        } else {
            0
        },
        frame_only: inner_width < 18 || inner_height < 4,
        inspector_height: if compact || inner_height < 11 {
            None
        } else if inner_width < 42 || inner_height < 14 {
            Some(5)
        } else {
            Some(8)
        },
    }
}

pub fn browser_plan(width: u16, height: u16, inner_width: u16, inner_height: u16) -> (p: BrowserPlan)
    ensures
        p == browser_plan_spec(width, height, inner_width, inner_height),
{
    let compact = width < 84 || height < 12;
    BrowserPlan {
        compact,
        root_label_width: if compact {
            width.saturating_sub(26)
        } else {
            width.saturating_sub(20)
        },
        frame_only: inner_width < 18 || inner_height < 4,
        inspector_height: if compact || inner_height < 11 {
            None
        } else if inner_width < 42 || inner_height < 14 {
            Some(5)
        } else {
            Some(8)
        },
    }
}

/// The lane monitor switches to three lines under 42 columns or 8 rows.
pub fn inspector_is_compact(width: u16, height: u16) -> (r: bool)
    ensures
        r == (width < 42 || height < 8),
{
    width < 42 || height < 8
}

pub open spec fn focus_hint_spec(focus: FocusPane) -> Seq<char> {
    match focus {
        FocusPane::Browser => "library lane active · j/k glide · Enter load/open"@,
        FocusPane::Player => "playback deck active · Tab returns to the library lane"@,
    }
}

/// The lane monitor's note on which lane has the keys.
pub fn focus_hint(focus: FocusPane) -> (r: &'static str)
    ensures
        r@ == focus_hint_spec(focus),
{
    match focus {
        FocusPane::Browser => "library lane active · j/k glide · Enter load/open",
        FocusPane::Player => "playback deck active · Tab returns to the library lane",
    }
}

/// The deck's arrangement, top to bottom.
#[derive(Debug, Clone, Copy, PartialEq, Eq, Structural)]
pub enum PlayerPlan {
    /// Now playing (7), visualizer (rest, at least 3), progress (3).
    Compact,
    /// Now playing (7), visualizer (rest, at least 4), progress (3).
    Short,
    /// Fixed bands: now playing, visualizer, progress, queue.
    QueueReentry { now: u16, visualizer: u16, progress: u16, queue: u16 },
    /// Fixed bands: now playing, visualizer, progress, guide, queue.
    GuideReentry { now: u16, visualizer: u16, progress: u16, guide: u16, queue: u16 },
    /// Now playing (`now`), visualizer (rest, at least 5), progress (3),
    /// guide (4), queue (6).
    Tall { now: u16 },
    /// Narrow deck: now playing (8), visualizer (8), progress (3), guide
    /// (6), queue (rest, at least 4).
    Narrow,
}

pub open spec fn player_plan_spec(width: u16, height: u16) -> PlayerPlan {
    if width >= 72 {
        if height < 14 {
            PlayerPlan::Compact
        } else if height < 20 {
            PlayerPlan::Short
        } else if crate::tui::queue_layout_spec(height) is Some {
            let (a, b, c, d) = crate::tui::queue_layout_spec(height)->0;
            PlayerPlan::QueueReentry { now: a, visualizer: b, progress: c, queue: d }
        } else if crate::tui::guide_layout_spec(height) is Some {
            let (a, b, c, d, e) = crate::tui::guide_layout_spec(height)->0;
            PlayerPlan::GuideReentry { now: a, visualizer: b, progress: c, guide: d, queue: e }
        } else {
            PlayerPlan::Tall {
                now: if height >= 30 {
                    9
                } else {
                    8
                },
            }
        }
    } else if height < 15 {
        PlayerPlan::Compact
    } else {
        PlayerPlan::Narrow
    }
}

pub fn player_plan(width: u16, height: u16) -> (p: PlayerPlan)
    ensures
        p == player_plan_spec(width, height),
{
    if width >= 72 {
        if height < 14 {
            return PlayerPlan::Compact;
        }
        if height < 20 {
            return PlayerPlan::Short;
        }
        if let Some((now, visualizer, progress, queue)) = crate::tui::wide_queue_reentry_layout(height) {
            return PlayerPlan::QueueReentry { now, visualizer, progress, queue };
        }
        if let Some((now, visualizer, progress, guide, queue)) = crate::tui::wide_deck_guide_reentry_layout(
            height,
        ) {
            return PlayerPlan::GuideReentry { now, visualizer, progress, guide, queue };
        }
        PlayerPlan::Tall {
            now: if height >= 30 {
                9
            } else {
                8
            },
        }
    } else if height < 15 {
        PlayerPlan::Compact
    } else {
        PlayerPlan::Narrow
    }
}

/// The now-playing panel's arrangement inside its frame.
#[derive(Debug, Clone, Copy, PartialEq, Eq, Structural)]
pub enum NowPlayingPlan {
    FrameOnly,
    /// A few compact lines.
    Lines,
    /// Detail lines only.
    Details,
    /// The album tile (16 columns) beside the detail lines.
    TileAndDetails,
}

pub open spec fn now_playing_plan_spec(inner_width: u16, inner_height: u16) -> NowPlayingPlan {
    if inner_width < 24 || inner_height < 2 {
        NowPlayingPlan::FrameOnly
    } else if inner_height < 5 {
        NowPlayingPlan::Lines
    } else if inner_width < 52 {
        NowPlayingPlan::Details
    } else {
        NowPlayingPlan::TileAndDetails
    }
}

pub fn now_playing_plan(inner_width: u16, inner_height: u16) -> (p: NowPlayingPlan)
    ensures
        p == now_playing_plan_spec(inner_width, inner_height),
{
    if inner_width < 24 || inner_height < 2 {
        NowPlayingPlan::FrameOnly
    } else if inner_height < 5 {
        NowPlayingPlan::Lines
    } else if inner_width < 52 {
        NowPlayingPlan::Details
    } else {
        NowPlayingPlan::TileAndDetails
    }
}

/// The signal deck's arrangement inside its frame.
#[derive(Debug, Clone, Copy, PartialEq, Eq, Structural)]
pub enum VisualizerPlan {
    FrameOnly,
    /// Compact lines beside a level rail.
    Bridge,
    /// A few compact lines.
    Lines,
    /// A single wave line.
    Wave,
    /// The full deck beside a signal rise `side_width` columns wide.
    DeckWithRise { side_width: u16 },
    /// The full deck beside a signal ladder `side_width` columns wide.
    DeckWithLadder { side_width: u16 },
    /// The full deck alone.
    Deck,
}

pub open spec fn visualizer_plan_spec(inner_width: u16, inner_height: u16) -> VisualizerPlan {
    let side: u16 = if inner_width >= 58 {
        19
    } else {
        16
    };
    if inner_width < 12 || inner_height < 1 {
        VisualizerPlan::FrameOnly
    } else if inner_width >= 56 && 5 <= inner_height <= 6 {
        VisualizerPlan::Bridge
    } else if inner_height < 6 {
        if inner_width >= 36 && inner_height >= 2 {
            VisualizerPlan::Lines
        } else {
            VisualizerPlan::Wave
        }
    } else if inner_width >= 40 && inner_height == 7 {
        VisualizerPlan::DeckWithRise { side_width: side }
    } else if inner_width >= 40 && inner_height >= 8 {
        VisualizerPlan::DeckWithLadder { side_width: side }
    } else {
        VisualizerPlan::Deck
    }
}

pub fn visualizer_plan(inner_width: u16, inner_height: u16) -> (p: VisualizerPlan)
    ensures
        p == visualizer_plan_spec(inner_width, inner_height),
{
    let side: u16 = if inner_width >= 58 {
        19
    } else {
        16
    };
    if inner_width < 12 || inner_height < 1 {
        VisualizerPlan::FrameOnly
    } else if inner_width >= 56 && 5 <= inner_height && inner_height <= 6 {
        VisualizerPlan::Bridge
    } else if inner_height < 6 {
        if inner_width >= 36 && inner_height >= 2 {
            VisualizerPlan::Lines
        } else {
            VisualizerPlan::Wave
        }
    } else if inner_width >= 40 && inner_height == 7 {
        VisualizerPlan::DeckWithRise { side_width: side }
    } else if inner_width >= 40 && inner_height >= 8 {
        VisualizerPlan::DeckWithLadder { side_width: side }
    } else {
        VisualizerPlan::Deck
    }
}

/// Which rows the full deck stacks under its header and spectrum
/// (`spectrum_rows` high): the undertow from 7 rows, the reflection from 9.
#[derive(Debug, Clone, Copy, PartialEq, Eq, Structural)]
pub struct DeckRows {
    pub spectrum_rows: u16,
    pub undertow: bool,
    pub reflection: bool,
}

pub open spec fn deck_rows_spec(height: u16) -> DeckRows {
    DeckRows {
        spectrum_rows: if height >= 9 {
            3
        } else {
            2
        },
        undertow: height >= 7,
        reflection: height >= 9,
    }
}

pub fn deck_rows(height: u16) -> (r: DeckRows)
    ensures
        r == deck_rows_spec(height),
{
    DeckRows {
        spectrum_rows: if height >= 9 {
            3
        } else {
            2
        },
        undertow: height >= 7,
        reflection: height >= 9,
    }
}

/// The signal ladder's arrangement: the first frame of the ladder (8 rows)
/// blooms; meters alone under 5 inner rows; a two-line footer from 7.
#[derive(Debug, Clone, Copy, PartialEq, Eq, Structural)]
pub struct LadderPlan {
    pub blooming: bool,
    pub frame_only: bool,
    pub meters_only: bool,
    pub footer_height: u16,
}

pub open spec fn ladder_plan_spec(height: u16, inner_width: u16, inner_height: u16) -> LadderPlan {
    LadderPlan {
        blooming: height == 8,
        frame_only: inner_width < 10 || inner_height < 2,
        meters_only: inner_height < 5,
        footer_height: if inner_height >= 7 {
            2
        } else {
            1
        },
    }
}

pub fn ladder_plan(height: u16, inner_width: u16, inner_height: u16) -> (p: LadderPlan)
    ensures
        p == ladder_plan_spec(height, inner_width, inner_height),
{
    LadderPlan {
        blooming: height == 8,
        frame_only: inner_width < 10 || inner_height < 2,
        meters_only: inner_height < 5,
        footer_height: if inner_height >= 7 {
            2
        } else {
            1
        },
    }
}

pub open spec fn ladder_footer_spec(blooming: bool, status: PlaybackStatus) -> Seq<char> {
    if blooming {
        "the full ladder blooms from the signal rise"@
    } else {
        crate::tui::mood_spec(status)
    }
}

pub fn ladder_footer_text(blooming: bool, status: &PlaybackStatus) -> (r: &'static str)
    ensures
        r@ == ladder_footer_spec(blooming, *status),
{
    if blooming {
        "the full ladder blooms from the signal rise"
    } else {
        crate::tui::playback_mood(status)
    }
}

/// The cue stack's arrangement inside its frame.
#[derive(Debug, Clone, Copy, PartialEq, Eq, Structural)]
pub enum QueuePlan {
    FrameOnly,
    /// Summary, marquee, the queue rows (rest), footer.
    Full,
    /// Summary and one queue row.
    Two,
    /// Summary, one queue row, footer.
    Three,
    /// Summary, marquee, one queue row, footer.
    Four,
}

pub open spec fn queue_plan_spec(inner_width: u16, inner_height: u16) -> QueuePlan {
    if inner_width < 20 || inner_height < 2 {
        QueuePlan::FrameOnly
    } else if inner_height >= 5 {
        QueuePlan::Full
    } else if inner_height == 2 {
        QueuePlan::Two
    } else if inner_height == 3 {
        QueuePlan::Three
    } else {
        QueuePlan::Four
    }
}

pub fn queue_plan(inner_width: u16, inner_height: u16) -> (p: QueuePlan)
    ensures
        p == queue_plan_spec(inner_width, inner_height),
{
    if inner_width < 20 || inner_height < 2 {
        QueuePlan::FrameOnly
    } else if inner_height >= 5 {
        QueuePlan::Full
    } else if inner_height == 2 {
        QueuePlan::Two
    } else if inner_height == 3 {
        QueuePlan::Three
    } else {
        QueuePlan::Four
    }
}

/// The status ribbon's arrangement.
#[derive(Debug, Clone, Copy, PartialEq, Eq, Structural)]
pub enum StatusPlan {
    FrameOnly,
    /// A badge and one line of text.
    Compact,
    /// Chips (46 columns) and the status line.
    TwoColumns,
    /// Chips (46), transport (34) and the status line.
    ThreeColumns,
}

pub open spec fn status_plan_spec(inner_width: u16) -> StatusPlan {
    if inner_width < 24 {
        StatusPlan::FrameOnly
    } else if inner_width < 88 {
        StatusPlan::Compact
    } else if inner_width >= 118 {
        StatusPlan::ThreeColumns
    } else {
        StatusPlan::TwoColumns
    }
}

pub fn status_plan(inner_width: u16) -> (p: StatusPlan)
    ensures
        p == status_plan_spec(inner_width),
{
    if inner_width < 24 {
        StatusPlan::FrameOnly
    } else if inner_width < 88 {
        StatusPlan::Compact
    } else if inner_width >= 118 {
        StatusPlan::ThreeColumns
    } else {
        StatusPlan::TwoColumns
    }
}

/// What the compact status ribbon says: the transport while a track is
/// loaded, else the status line.
pub fn compact_status_message(player: &PlayerState, status_line: &str) -> (r: String)
    ensures
        r@ == if player@.current_track is Some {
            crate::tui::transport_text_spec(player@)
        } else {
            status_line@
        },
{
    if player.current_track.is_some() {
        crate::tui::status_transport_text(player)
    } else {
        crate::text::owned(status_line)
    }
}

// ---------------------------------------------------------------------------
// Which lines each panel stacks

/// A line of the album tile.
#[derive(Debug, Clone, Copy, PartialEq, Eq, Structural)]
pub enum TileRow {
    Brand,
    State,
    Monogram,
    Signature,
    Meta,
    Volume,
    Time,
}

pub open spec fn tile_rows_spec(height: usize) -> Seq<TileRow> {
    if height <= 2 {
        seq![TileRow::Monogram, TileRow::Time]
    } else if height == 3 {
        seq![TileRow::Brand, TileRow::Monogram, TileRow::Time]
    } else if height == 4 {
        seq![TileRow::Brand, TileRow::Monogram, TileRow::Meta, TileRow::Time]
    } else if height == 5 {
        seq![TileRow::Brand, TileRow::State, TileRow::Monogram, TileRow::Meta, TileRow::Time]
    } else if height == 6 {
        seq![TileRow::Brand, TileRow::State, TileRow::Monogram, TileRow::Signature, TileRow::Meta, TileRow::Time]
    } else {
        seq![
            TileRow::Brand,
            TileRow::State,
            TileRow::Monogram,
            TileRow::Signature,
            TileRow::Meta,
            TileRow::Volume,
            TileRow::Time,
        ]
    }
}

/// The album tile's lines for a tile `height` rows high (at least two).
pub fn tile_rows(height: usize) -> (r: Vec<TileRow>)
    ensures
        r@ == tile_rows_spec(height),
{
    let r = if height <= 2 {
        vec![TileRow::Monogram, TileRow::Time]
    } else if height == 3 {
        vec![TileRow::Brand, TileRow::Monogram, TileRow::Time]
    } else if height == 4 {
        vec![TileRow::Brand, TileRow::Monogram, TileRow::Meta, TileRow::Time]
    } else if height == 5 {
        vec![TileRow::Brand, TileRow::State, TileRow::Monogram, TileRow::Meta, TileRow::Time]
    } else if height == 6 {
        vec![TileRow::Brand, TileRow::State, TileRow::Monogram, TileRow::Signature, TileRow::Meta, TileRow::Time]
    } else {
        vec![
            TileRow::Brand,
            TileRow::State,
            TileRow::Monogram,
            TileRow::Signature,
            TileRow::Meta,
            TileRow::Volume,
            TileRow::Time,
        ]
    };
    assert(r@ =~= tile_rows_spec(height));
    r
}

/// The optional lines of the now-playing details for `height` rows (at
/// least five): the source line from 6, the volume meter from 7, the
/// signal line from 8, the drive meter from 9.
#[derive(Debug, Clone, Copy, PartialEq, Eq, Structural)]
pub struct DetailRows {
    pub source: bool,
    pub volume: bool,
    pub signal: bool,
    pub drive: bool,
}

pub open spec fn detail_rows_spec(height: usize) -> DetailRows {
    DetailRows { source: height >= 6, volume: height >= 7, signal: height >= 8, drive: height >= 9 }
}

pub fn detail_rows(height: usize) -> (r: DetailRows)
    ensures
        r == detail_rows_spec(height),
{
    DetailRows { source: height >= 6, volume: height >= 7, signal: height >= 8, drive: height >= 9 }
}

/// The compact now-playing lines: the context line from 3 rows; the
/// bottom line's chips by width (state, time from 30 columns, queue from 42).
#[derive(Debug, Clone, Copy, PartialEq, Eq, Structural)]
pub struct CompactNowRows {
    pub context: bool,
    pub time: bool,
    pub queue: bool,
}

pub open spec fn compact_now_rows_spec(width: usize, height: usize) -> CompactNowRows {
    let w: usize = if width < 16 {
        16
    } else {
        width
    };
    CompactNowRows { context: height >= 3, time: w >= 30, queue: w >= 42 }
}

pub fn compact_now_rows(width: usize, height: usize) -> (r: CompactNowRows)
    ensures
        r == compact_now_rows_spec(width, height),
{
    let w: usize = if width < 16 {
        16
    } else {
        width
    };
    CompactNowRows { context: height >= 3, time: w >= 30, queue: w >= 42 }
}

/// The compact signal deck's lines by height.
#[derive(Debug, Clone, Copy, PartialEq, Eq, Structural)]
pub enum CompactDeck {
    /// One wave line.
    Wave,
    /// Header, then the wave and its caption side by side.
    HeaderAndWaveCaption,
    /// Header, wave, caption.
    HeaderWaveCaption,
    /// Header, signature, wave, caption.
    HeaderSignatureWaveCaption,
    /// Header, `spectrum_rows` of spectrum, wave, undertow, glow when
    /// `glow`, caption.
    Full { spectrum_rows: usize, glow: bool },
}

pub open spec fn compact_deck_spec(height: usize) -> CompactDeck {
    if height <= 1 {
        CompactDeck::Wave
    } else if height == 2 {
        CompactDeck::HeaderAndWaveCaption
    } else if height == 3 {
        CompactDeck::HeaderWaveCaption
    } else if height == 4 {
        CompactDeck::HeaderSignatureWaveCaption
    } else {
        let glow = height >= 7;
        let effects: int = if glow {
            3
        } else {
            2
        };
        CompactDeck::Full {
            spectrum_rows: if height - (2 + effects) >= 1 {
                (height - (2 + effects)) as usize
            } else {
                1
            },
            glow,
        }
    }
}

pub fn compact_deck(height: usize) -> (r: CompactDeck)
    ensures
        r == compact_deck_spec(height),
{
    if height <= 1 {
        CompactDeck::Wave
    } else if height == 2 {
        CompactDeck::HeaderAndWaveCaption
    } else if height == 3 {
        CompactDeck::HeaderWaveCaption
    } else if height == 4 {
        CompactDeck::HeaderSignatureWaveCaption
    } else {
        let glow = height >= 7;
        let effects: usize = if glow {
            3
        } else {
            2
        };
        CompactDeck::Full {
            spectrum_rows: if height - (2 + effects) >= 1 {
                height - (2 + effects)
            } else {
                1
            },
            glow,
        }
    }
}

/// The level rail's meter rows for a rail `height` rows high: two to four,
/// leaving room for its header and footer.
pub open spec fn rail_meter_rows_spec(height: usize) -> usize {
    let h: int = if height < 4 {
        4
    } else {
        height as int
    };
    if h - 2 < 2 {
        2
    } else if h - 2 > 4 {
        4
    } else {
        (h - 2) as usize
    }
}

pub fn rail_meter_rows(height: usize) -> (r: usize)
    ensures
        r == rail_meter_rows_spec(height),
        2 <= r <= 4,
{
    let h = if height < 4 {
        4
    } else {
        height
    };
    if h - 2 > 4 {
        4
    } else {
        h - 2
    }
}

/// What the cue stack says when it is empty.
pub fn queue_empty_text() -> (r: &'static str)
    ensures
        r@ == " Cue stack is empty — pick a track from the library lane."@,
{
    " Cue stack is empty — pick a track from the library lane."
}

// ---------------------------------------------------------------------------
// Laws

/// The deck's arrangement depends only on its size, and every arrangement
/// with fixed bands fills the deck's height exactly.
pub proof fn law_fixed_bands_fill_deck(width: u16, height: u16)
    ensures
        player_plan_spec(width, height) matches PlayerPlan::QueueReentry { now, visualizer, progress, queue }
            ==> now + visualizer + progress + queue == height,
        player_plan_spec(width, height) matches PlayerPlan::GuideReentry {
            now,
            visualizer,
            progress,
            guide,
            queue,
        } ==> now + visualizer + progress + guide + queue == height,
        width >= 72 && 20 <= height < 31 ==> (player_plan_spec(width, height) is QueueReentry
            || player_plan_spec(width, height) is GuideReentry),
{
}

/// The signal deck shows a rise at 7 inner rows and graduates to the
/// ladder from 8, when wide enough for a side column.
pub proof fn law_rise_before_ladder(inner_width: u16, inner_height: u16)
    requires
        inner_width >= 56,
    ensures
        inner_height == 7 ==> visualizer_plan_spec(inner_width, inner_height) is DeckWithRise,
        inner_height >= 8 ==> visualizer_plan_spec(inner_width, inner_height) is DeckWithLadder,
        5 <= inner_height <= 6 ==> visualizer_plan_spec(inner_width, inner_height) is Bridge,
{
}

} // verus!
