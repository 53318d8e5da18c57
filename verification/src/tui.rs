//! What the screen says: the words, labels, time stamps and band heights of
//! the display, computed from the player and browser state. Colours and the
//! drawing itself belong to the terminal front end.
use crate::audio_engine::{PlaybackStatus, PlayerModel, PlayerState};
use crate::browser::{BrowserEntry, EntryKind, EntryView};
use crate::paths::{
    display_name, display_name_spec, extension, file_name, opt_view, parent, path_components,
    path_extension, path_file_name, path_parent, path_strip_prefix, strip_prefix,
};
use crate::text::{
    concat2, concat3, decimal, decimal2, fit_spec, fit_text, joined, owned, push_decimal,
    push_decimal2, same_text, to_uppercase, unicode_upper,
};
use vstd::prelude::*;

verus! {

// ---------------------------------------------------------------------------
// Fixed words

pub open spec fn title_state_spec(s: PlaybackStatus) -> Seq<char> {
    match s {
        PlaybackStatus::Playing => "ON AIR"@,
        PlaybackStatus::Paused => "HELD"@,
        PlaybackStatus::Stopped => "READY"@,
    }
}

/// The state badge of the title bar and the album tile.
pub fn title_state_text(status: &PlaybackStatus) -> (r: &'static str)
    ensures
        r@ == title_state_spec(*status),
{
    match status {
        PlaybackStatus::Playing => "ON AIR",
        PlaybackStatus::Paused => "HELD",
        PlaybackStatus::Stopped => "READY",
    }
}

pub open spec fn action_hint_spec(entry: Option<EntryView>) -> Seq<char> {
    match entry {
        Some(e) => if e.kind == EntryKind::Directory && e.expanded {
            "Enter folds this shelf · ← climbs one level"@
        } else if e.kind == EntryKind::Directory {
            "Enter or → opens the folder shelf"@
        } else {
            "Enter loads this track into the deck"@
        },
        None => "Point the library lane at a folder with supported audio"@,
    }
}

pub open spec fn entry_opt_view(entry: Option<&BrowserEntry>) -> Option<EntryView> {
    match entry {
        Some(e) => Some(e@),
        None => None,
    }
}

/// What pressing a key does to the selected row.
pub fn browser_action_hint(entry: Option<&BrowserEntry>) -> (r: &'static str)
    ensures
        r@ == action_hint_spec(entry_opt_view(entry)),
{
    match entry {
        Some(e) => if e.kind == EntryKind::Directory && e.expanded {
            "Enter folds this shelf · ← climbs one level"
        } else if e.kind == EntryKind::Directory {
            "Enter or → opens the folder shelf"
        } else {
            "Enter loads this track into the deck"
        },
        None => "Point the library lane at a folder with supported audio",
    }
}

pub open spec fn rise_footer_spec(s: PlaybackStatus) -> Seq<char> {
    match s {
        PlaybackStatus::Playing => "crest rail rising toward the full ladder"@,
        PlaybackStatus::Paused => "held rail waiting to reopen the full ladder"@,
        PlaybackStatus::Stopped => "queue a track to raise the full ladder"@,
    }
}

pub fn signal_rise_footer_text(status: &PlaybackStatus) -> (r: &'static str)
    ensures
        r@ == rise_footer_spec(*status),
{
    match status {
        PlaybackStatus::Playing => "crest rail rising toward the full ladder",
        PlaybackStatus::Paused => "held rail waiting to reopen the full ladder",
        PlaybackStatus::Stopped => "queue a track to raise the full ladder",
    }
}

pub open spec fn mood_spec(s: PlaybackStatus) -> Seq<char> {
    match s {
        PlaybackStatus::Playing => "crest and undertow rolling under blue glass"@,
        PlaybackStatus::Paused => "last crest and undertow held under blue glass"@,
        PlaybackStatus::Stopped => "blue glass waiting on a cue"@,
    }
}

pub fn playback_mood(status: &PlaybackStatus) -> (r: &'static str)
    ensures
        r@ == mood_spec(*status),
{
    match status {
        PlaybackStatus::Playing => "crest and undertow rolling under blue glass",
        PlaybackStatus::Paused => "last crest and undertow held under blue glass",
        PlaybackStatus::Stopped => "blue glass waiting on a cue",
    }
}

pub open spec fn collection_spec() -> Seq<char> {
    "BARS + WAVES"@
}

pub fn visualizer_collection() -> (r: &'static str)
    ensures
        r@ == collection_spec(),
{
    "BARS + WAVES"
}

// ---------------------------------------------------------------------------
// Band heights

pub open spec fn queue_layout_spec(h: u16) -> Option<(u16, u16, u16, u16)> {
    if 20 <= h < 26 {
        let queue: u16 = if h <= 21 {
            4
        } else if h <= 24 {
            5
        } else {
            6
        };
        Some(((h - 8 - 3 - queue) as u16, 8, 3, queue))
    } else {
        None
    }
}

/// Heights of the now-playing, visualizer, progress and queue bands when a
/// wide deck is 20 to 25 rows tall.
pub fn wide_queue_reentry_layout(area_height: u16) -> (r: Option<(u16, u16, u16, u16)>)
    ensures
        r == queue_layout_spec(area_height),
{
    if !(20 <= area_height && area_height < 26) {
        return None;
    }
    let queue_height: u16 = if area_height <= 21 {
        4
    } else if area_height <= 24 {
        5
    } else {
        6
    };
    let visualizer_height: u16 = 8;
    let progress_height: u16 = 3;
    let now_height = area_height - visualizer_height - progress_height - queue_height;
    Some((now_height, visualizer_height, progress_height, queue_height))
}

pub open spec fn guide_layout_spec(h: u16) -> Option<(u16, u16, u16, u16, u16)> {
    if 26 <= h < 31 {
        let queue: u16 = if h == 26 {
            4
        } else if h <= 28 {
            5
        } else {
            6
        };
        let visualizer: u16 = if h >= 30 {
            9
        } else {
            8
        };
        Some(((h - visualizer - 3 - 4 - queue) as u16, visualizer, 3, 4, queue))
    } else {
        None
    }
}

/// Heights of the now-playing, visualizer, progress, guide and queue bands
/// when a wide deck is 26 to 30 rows tall.
pub fn wide_deck_guide_reentry_layout(area_height: u16) -> (r: Option<(u16, u16, u16, u16, u16)>)
    ensures
        r == guide_layout_spec(area_height),
{
    if !(26 <= area_height && area_height < 31) {
        return None;
    }
    let queue_height: u16 = if area_height == 26 {
        4
    } else if area_height <= 28 {
        5
    } else {
        6
    };
    let guide_height: u16 = 4;
    let progress_height: u16 = 3;
    let visualizer_height: u16 = if area_height >= 30 {
        9
    } else {
        8
    };
    let now_height = area_height - visualizer_height - progress_height - guide_height - queue_height;
    Some((now_height, visualizer_height, progress_height, guide_height, queue_height))
}

// ---------------------------------------------------------------------------
// Counting rows

pub open spec fn count_dirs(s: Seq<EntryView>) -> nat
    decreases s.len(),
{
    if s.len() == 0 {
        0
    } else {
        count_dirs(s.drop_last()) + if s.last().kind == EntryKind::Directory {
            1nat
        } else {
            0nat
        }
    }
}

pub open spec fn count_files(s: Seq<EntryView>) -> nat
    decreases s.len(),
{
    if s.len() == 0 {
        0
    } else {
        count_files(s.drop_last()) + if s.last().kind == EntryKind::File {
            1nat
        } else {
            0nat
        }
    }
}

pub proof fn lemma_counts_add_up(s: Seq<EntryView>)
    ensures
        count_dirs(s) + count_files(s) == s.len(),
    decreases s.len(),
{
    if s.len() > 0 {
        lemma_counts_add_up(s.drop_last());
    }
}

/// How many rows are folders and how many are files.
pub fn browser_counts(entries: &[BrowserEntry]) -> (r: (usize, usize))
    ensures
        r.0 == count_dirs(crate::browser::entries_view(entries@)),
        r.1 == count_files(crate::browser::entries_view(entries@)),
        r.0 + r.1 == entries@.len(),
{
    let ghost all = crate::browser::entries_view(entries@);
    let mut directories: usize = 0;
    let mut files: usize = 0;
    let mut i: usize = 0;
    while i < entries.len()
        invariant
            i <= entries@.len(),
            all == crate::browser::entries_view(entries@),
            directories == count_dirs(all.take(i as int)),
            files == count_files(all.take(i as int)),
        decreases entries@.len() - i,
    {
        proof {
            assert(all.take(i + 1).drop_last() =~= all.take(i as int));
            lemma_counts_add_up(all.take(i as int));
        }
        match entries[i].kind {
            EntryKind::Directory => {
                directories = directories + 1;
            },
            EntryKind::File => {
                files = files + 1;
            },
        }
        i = i + 1;
    }
    proof {
        assert(all.take(entries@.len() as int) =~= all);
        lemma_counts_add_up(all);
    }
    (directories, files)
}

// ---------------------------------------------------------------------------
// Time

/// `mm:ss` for a number of milliseconds (whole seconds, minutes unbounded).
pub open spec fn duration_spec(ms: u64) -> Seq<char> {
    let secs = ms / 1000;
    decimal2((secs / 60) as nat) + ":"@ + decimal2((secs % 60) as nat)
}

pub fn format_duration(ms: u64) -> (r: String)
    ensures
        r@ == duration_spec(ms),
{
    let total_seconds = ms / 1000;
    let mut r = String::new();
    push_decimal2(&mut r, total_seconds / 60);
    r.append(":");
    push_decimal2(&mut r, total_seconds % 60);
    r
}

/// "position / length" when a track of known length is loaded; the position
/// alone once it has moved; a placeholder otherwise.
pub open spec fn time_label_spec(p: PlayerModel) -> Seq<char> {
    if p.current_track is Some && p.duration is Some && p.duration->0 != 0 {
        duration_spec(p.position) + " / "@ + duration_spec(p.duration->0)
    } else if p.current_track is Some && p.position != 0 {
        duration_spec(p.position)
    } else {
        "--:--"@
    }
}

pub fn compact_time_label(player: &PlayerState) -> (r: String)
    ensures
        r@ == time_label_spec(player@),
{
    if player.current_track.is_some() {
        match player.duration {
            Some(d) => {
                if d != 0 {
                    let a = format_duration(player.position);
                    let b = format_duration(d);
                    return concat3(a.as_str(), " / ", b.as_str());
                }
            },
            None => {},
        }
        if player.position != 0 {
            return format_duration(player.position);
        }
    }
    owned("--:--")
}

/// The label of the time ribbon: "position / length", or placeholders when
/// the length is unknown.
pub open spec fn progress_label_spec(p: PlayerModel) -> Seq<char> {
    if p.duration is Some && p.duration->0 != 0 {
        duration_spec(p.position) + " / "@ + duration_spec(p.duration->0)
    } else {
        "--:-- / --:--"@
    }
}

pub fn progress_label(player: &PlayerState) -> (r: String)
    ensures
        r@ == progress_label_spec(player@),
{
    match player.duration {
        Some(d) => if d != 0 {
            let a = format_duration(player.position);
            let b = format_duration(d);
            concat3(a.as_str(), " / ", b.as_str())
        } else {
            owned("--:-- / --:--")
        },
        None => owned("--:-- / --:--"),
    }
}

// ---------------------------------------------------------------------------
// Paths as shown

/// The last `count` components (at least one) joined with `/`; "." for a
/// path without components.
pub open spec fn tail_path_spec(path: Seq<char>, count: usize) -> Seq<char> {
    let parts = path_components(path);
    if parts.len() == 0 {
        "."@
    } else {
        let keep: int = if count == 0 {
            1
        } else {
            count as int
        };
        let start: int = if parts.len() >= keep {
            parts.len() - keep
        } else {
            0
        };
        joined(parts.skip(start), "/"@)
    }
}

pub fn tail_path(path: &str, component_count: usize) -> (r: String)
    ensures
        r@ == tail_path_spec(path@, component_count),
{
    let parts = crate::paths::components(path);
    if parts.len() == 0 {
        return owned(".");
    }
    let keep: usize = if component_count == 0 {
        1
    } else {
        component_count
    };
    let start = if parts.len() >= keep {
        parts.len() - keep
    } else {
        0
    };
    crate::text::join_from(&parts, start, "/")
}

/// The root as the library lane's title shows it in `max_chars` characters:
/// its name when tight, its last two components when moderate, all of it
/// when wide.
pub open spec fn root_label_spec(root: Seq<char>, max_chars: usize) -> Seq<char> {
    if max_chars <= 18 {
        fit_spec(display_name_spec(root), max_chars as nat)
    } else if max_chars <= 80 {
        fit_spec(tail_path_spec(root, 2), max_chars as nat)
    } else {
        fit_spec(root, max_chars as nat)
    }
}

pub fn browser_root_label(root: &str, max_chars: usize) -> (r: String)
    ensures
        r@ == root_label_spec(root@, max_chars),
{
    if max_chars <= 18 {
        let name = display_name(root);
        return fit_text(name.as_str(), max_chars);
    }
    if max_chars <= 80 {
        let tail = tail_path(root, 2);
        return fit_text(tail.as_str(), max_chars);
    }
    fit_text(root, max_chars)
}

/// `path` relative to `root`; "." for the root itself; the whole path when
/// it is not under the root.
pub open spec fn relative_spec(root: Seq<char>, path: Seq<char>) -> Seq<char> {
    if path == root {
        "."@
    } else {
        match path_strip_prefix(path, root) {
            Some(rel) => if rel.len() == 0 {
                "."@
            } else {
                rel
            },
            None => path,
        }
    }
}

pub fn display_relative_path(root: &str, path: &str) -> (r: String)
    ensures
        r@ == relative_spec(root@, path@),
{
    if same_text(path, root) {
        return owned(".");
    }
    match strip_prefix(path, root) {
        Some(rel) => if rel.as_str().is_empty() {
            owned(".")
        } else {
            rel
        },
        None => owned(path),
    }
}

/// The name a queued path is listed under.
pub fn queue_track_name(path: &str) -> (r: String)
    ensures
        r@ == display_name_spec(path@),
{
    display_name(path)
}

// ---------------------------------------------------------------------------
// The loaded track's origin

pub open spec fn nonempty(o: Option<Seq<char>>) -> Option<Seq<char>> {
    match o {
        Some(t) => if t.len() > 0 {
            Some(t)
        } else {
            None
        },
        None => None,
    }
}

pub open spec fn name_of(o: Option<Seq<char>>) -> Option<Seq<char>> {
    match o {
        Some(p) => path_file_name(p),
        None => None,
    }
}

pub open spec fn parent_of(o: Option<Seq<char>>) -> Option<Seq<char>> {
    match o {
        Some(p) => path_parent(p),
        None => None,
    }
}

pub open spec fn track_path(p: PlayerModel) -> Option<Seq<char>> {
    match p.current_track {
        Some(t) => Some(t.path),
        None => None,
    }
}

/// The folder holding the loaded track.
pub open spec fn folder_spec(p: PlayerModel) -> Option<Seq<char>> {
    nonempty(name_of(parent_of(track_path(p))))
}

/// The folder above that one.
pub open spec fn shelf_spec(p: PlayerModel) -> Option<Seq<char>> {
    nonempty(name_of(parent_of(parent_of(track_path(p)))))
}

/// The loaded track's extension in upper case.
pub open spec fn codec_spec(p: PlayerModel) -> Option<Seq<char>> {
    match track_path(p) {
        Some(t) => match path_extension(t) {
            Some(e) => nonempty(Some(unicode_upper(e))),
            None => None,
        },
        None => None,
    }
}

fn nonempty_text(o: Option<String>) -> (r: Option<String>)
    ensures
        opt_view(r) == nonempty(opt_view(o)),
{
    match o {
        Some(t) => if t.as_str().is_empty() {
            None
        } else {
            Some(t)
        },
        None => None,
    }
}

fn name_of_text(o: Option<String>) -> (r: Option<String>)
    ensures
        opt_view(r) == name_of(opt_view(o)),
{
    match o {
        Some(p) => file_name(p.as_str()),
        None => None,
    }
}

fn parent_of_text(o: Option<String>) -> (r: Option<String>)
    ensures
        opt_view(r) == parent_of(opt_view(o)),
{
    match o {
        Some(p) => parent(p.as_str()),
        None => None,
    }
}

fn track_path_text(player: &PlayerState) -> (r: Option<String>)
    ensures
        opt_view(r) == track_path(player@),
{
    match &player.current_track {
        Some(t) => Some(t.path.clone()),
        None => None,
    }
}

pub fn track_folder_label(player: &PlayerState) -> (r: Option<String>)
    ensures
        opt_view(r) == folder_spec(player@),
{
    nonempty_text(name_of_text(parent_of_text(track_path_text(player))))
}

pub fn track_shelf_label(player: &PlayerState) -> (r: Option<String>)
    ensures
        opt_view(r) == shelf_spec(player@),
{
    nonempty_text(name_of_text(parent_of_text(parent_of_text(track_path_text(player)))))
}

pub fn track_codec_label(player: &PlayerState) -> (r: Option<String>)
    ensures
        opt_view(r) == codec_spec(player@),
{
    match track_path_text(player) {
        Some(t) => match extension(t.as_str()) {
            Some(e) => nonempty_text(Some(to_uppercase(e.as_str()))),
            None => None,
        },
        None => None,
    }
}

/// The one-line context of the compact deck: the last error, else the
/// folder of the loaded track, else an invitation.
pub open spec fn compact_context_spec(p: PlayerModel) -> Seq<char> {
    match p.last_error {
        Some(e) => "error · "@ + e,
        None => match name_of(parent_of(track_path(p))) {
            Some(n) => if p.current_track is Some {
                "folder · "@ + n
            } else {
                "select a track to light the deck"@
            },
            None => if p.current_track is Some {
                "library selection loaded"@
            } else {
                "select a track to light the deck"@
            },
        },
    }
}

pub fn compact_track_context(player: &PlayerState) -> (r: String)
    ensures
        r@ == compact_context_spec(player@),
{
    match &player.last_error {
        Some(error) => concat2("error · ", error.as_str()),
        None => {
            if player.current_track.is_none() {
                return owned("select a track to light the deck");
            }
            match name_of_text(parent_of_text(track_path_text(player))) {
                Some(name) => concat2("folder · ", name.as_str()),
                None => owned("library selection loaded"),
            }
        },
    }
}

/// The parts of the deck's context line: shelf, folder and codec, each
/// when known.
pub open spec fn context_parts(p: PlayerModel) -> Seq<Seq<char>> {
    let a = match shelf_spec(p) {
        Some(s) => seq!["shelf · "@ + s],
        None => Seq::empty(),
    };
    let b = match folder_spec(p) {
        Some(f) => seq!["folder · "@ + f],
        None => Seq::empty(),
    };
    let c = match codec_spec(p) {
        Some(k) => seq!["codec · "@ + k],
        None => Seq::empty(),
    };
    a + b + c
}

pub open spec fn context_spec(p: PlayerModel) -> Seq<char> {
    match p.last_error {
        Some(e) => "signal fault · "@ + e,
        None => if p.current_track is Some {
            if context_parts(p).len() == 0 {
                "library selection loaded"@
            } else {
                joined(context_parts(p), "   "@)
            }
        } else {
            "select a track to wake the blue-glass deck"@
        },
    }
}

pub fn now_playing_context_text(player: &PlayerState) -> (r: String)
    ensures
        r@ == context_spec(player@),
{
    match &player.last_error {
        Some(error) => concat2("signal fault · ", error.as_str()),
        None => {
            if player.current_track.is_none() {
                return owned("select a track to wake the blue-glass deck");
            }
            let mut parts: Vec<String> = Vec::new();
            let ghost p = player@;
            match track_shelf_label(player) {
                Some(shelf) => parts.push(concat2("shelf · ", shelf.as_str())),
                None => {},
            }
            match track_folder_label(player) {
                Some(folder) => parts.push(concat2("folder · ", folder.as_str())),
                None => {},
            }
            match track_codec_label(player) {
                Some(codec) => parts.push(concat2("codec · ", codec.as_str())),
                None => {},
            }
            assert(parts@.map_values(|q: String| q@) =~= context_parts(p));
            if parts.len() == 0 {
                owned("library selection loaded")
            } else {
                let r = crate::text::join_from(&parts, 0, "   ");
                assert(parts@.map_values(|q: String| q@).skip(0) =~= context_parts(p));
                r
            }
        },
    }
}

// ---------------------------------------------------------------------------
// The track's seed, visualizer preset and rating

pub open spec fn two_to_64() -> int {
    0x1_0000_0000_0000_0000
}

/// The title's bytes folded as `acc * 131 + byte`, wrapping at 2^64.
pub open spec fn title_hash(bytes: Seq<u8>) -> u64
    decreases bytes.len(),
{
    if bytes.len() == 0 {
        0
    } else {
        ((title_hash(bytes.drop_last()) * 131 + bytes.last()) % two_to_64()) as u64
    }
}

/// `x` rotated left by seven bits.
pub open spec fn rotl7(x: u64) -> u64 {
    ((x % 0x200_0000_0000_0000) * 128 + x / 0x200_0000_0000_0000) as u64
}

/// A number derived from the loaded title and length, steady while they
/// stay the same: it picks the preset, the rating and the marquee's start.
pub open spec fn seed_spec(p: PlayerModel) -> u64 {
    let title = match p.current_track {
        Some(t) => title_hash(vstd::utf8::encode_utf8(t.title)),
        None => 17,
    };
    let length = match p.duration {
        Some(d) => d,
        None => 0,
    };
    title ^ rotl7(length)
}

pub fn track_seed(player: &PlayerState) -> (r: u64)
    ensures
        r == seed_spec(player@),
{
    let title_seed: u64 = match &player.current_track {
        Some(track) => {
            let bytes = track.title.as_str().as_bytes();
            let ghost all = bytes@;
            let mut acc: u64 = 0;
            let mut i: usize = 0;
            while i < bytes.len()
                invariant
                    i <= all.len(),
                    all == bytes@,
                    acc == title_hash(all.take(i as int)),
                decreases all.len() - i,
            {
                assert(all.take(i + 1).drop_last() =~= all.take(i as int));
                let next: u128 = (acc as u128) * 131 + (bytes[i] as u128);
                acc = (next % 0x1_0000_0000_0000_0000u128) as u64;
                i = i + 1;
            }
            assert(all.take(all.len() as int) =~= all);
            acc
        },
        None => 17,
    };
    let length: u64 = match player.duration {
        Some(d) => d,
        None => 0,
    };
    let rotated: u64 = ((length % 0x200_0000_0000_0000) * 128) + length / 0x200_0000_0000_0000;
    title_seed ^ rotated
}

/// The visualizer's preset names, in order.
pub open spec fn preset_name(i: int) -> Seq<char> {
    if i == 0 {
        "Bars"@
    } else if i == 1 {
        "Ocean Mist"@
    } else if i == 2 {
        "Fire Storm"@
    } else {
        "Scope"@
    }
}

pub const PRESET_COUNT: usize = 4;

/// The preset in use: picked by the seed for a loaded track, else the second.
pub open spec fn preset_index_spec(p: PlayerModel) -> usize {
    if p.current_track is Some {
        ((seed_spec(p) as usize) % PRESET_COUNT) as usize
    } else {
        1
    }
}

pub fn visualizer_preset_index(player: &PlayerState) -> (r: usize)
    ensures
        r == preset_index_spec(player@),
        r < PRESET_COUNT,
{
    if player.current_track.is_some() {
        (track_seed(player) as usize) % PRESET_COUNT
    } else {
        1
    }
}

pub fn preset_by_index(i: usize) -> (r: &'static str)
    requires
        i < PRESET_COUNT,
    ensures
        r@ == preset_name(i as int),
{
    if i == 0 {
        "Bars"
    } else if i == 1 {
        "Ocean Mist"
    } else if i == 2 {
        "Fire Storm"
    } else {
        "Scope"
    }
}

pub open spec fn preset_spec(p: PlayerModel) -> Seq<char> {
    preset_name(preset_index_spec(p) as int)
}

pub fn visualizer_preset(player: &PlayerState) -> (r: &'static str)
    ensures
        r@ == preset_spec(player@),
{
    preset_by_index(visualizer_preset_index(player))
}

/// Stars out of five: none without a track; 3 to 5 while playing, one less
/// (at least 2) while paused, 2 when stopped.
pub open spec fn rating_spec(p: PlayerModel) -> usize {
    if p.current_track is None {
        0
    } else {
        let base = (3 + ((seed_spec(p) as usize) / 11) % 3) as usize;
        match p.status {
            PlaybackStatus::Playing => if base <= 5 {
                base
            } else {
                5
            },
            PlaybackStatus::Paused => if base >= 3 {
                (base - 1) as usize
            } else {
                2
            },
            PlaybackStatus::Stopped => 2,
        }
    }
}

pub fn deck_rating(player: &PlayerState) -> (r: usize)
    ensures
        r == rating_spec(player@),
        r <= 5,
{
    if player.current_track.is_none() {
        return 0;
    }
    let base: usize = 3 + ((track_seed(player) as usize) / 11) % 3;
    match player.status {
        PlaybackStatus::Playing => if base <= 5 {
            base
        } else {
            5
        },
        PlaybackStatus::Paused => if base >= 3 {
            base - 1
        } else {
            2
        },
        PlaybackStatus::Stopped => 2,
    }
}

/// Five stars, the first `filled` of them full.
pub open spec fn stars(filled: nat) -> Seq<char> {
    Seq::new(5, |i: int| if i < filled {
        '★'
    } else {
        '☆'
    })
}

pub open spec fn rating_text_spec(p: PlayerModel) -> Seq<char> {
    if p.current_track is None {
        "UNRATED"@
    } else {
        "RATING "@ + stars(rating_spec(p) as nat)
    }
}

pub fn deck_rating_text(player: &PlayerState) -> (r: String)
    ensures
        r@ == rating_text_spec(player@),
{
    if player.current_track.is_none() {
        return owned("UNRATED");
    }
    let filled = deck_rating(player);
    let mut r = owned("RATING ");
    let ghost start = r@;
    let mut i: usize = 0;
    while i < 5
        invariant
            i <= 5,
            r@ == start + stars(filled as nat).take(i as int),
        decreases 5 - i,
    {
        let c = if i < filled {
            '★'
        } else {
            '☆'
        };
        crate::text::push_char(&mut r, c);
        assert(stars(filled as nat).take(i + 1) =~= stars(filled as nat).take(i as int).push(c));
        i = i + 1;
    }
    assert(stars(filled as nat).take(5) =~= stars(filled as nat));
    r
}

// ---------------------------------------------------------------------------
// Captions

pub open spec fn caption_spec(p: PlayerModel) -> Seq<char> {
    match p.status {
        PlaybackStatus::Playing => preset_spec(p)
            + " throws crest / undertow / mirror / blue-glass glow across the signal deck."@,
        PlaybackStatus::Paused => preset_spec(p)
            + " holds crest / undertow / mirror / blue-glass glow on the last frame."@,
        PlaybackStatus::Stopped => preset_spec(p) + " waits in "@ + collection_spec()
            + " — queue a track to wake the blue-glass undertow and glow."@,
    }
}

pub fn visualizer_caption(player: &PlayerState) -> (r: String)
    ensures
        r@ == caption_spec(player@),
{
    let preset = visualizer_preset(player);
    match player.status {
        PlaybackStatus::Playing => concat2(
            preset,
            " throws crest / undertow / mirror / blue-glass glow across the signal deck.",
        ),
        PlaybackStatus::Paused => concat2(
            preset,
            " holds crest / undertow / mirror / blue-glass glow on the last frame.",
        ),
        PlaybackStatus::Stopped => {
            let mut r = concat3(preset, " waits in ", visualizer_collection());
            r.append(" — queue a track to wake the blue-glass undertow and glow.");
            r
        },
    }
}

pub open spec fn wash_caption_spec(p: PlayerModel) -> Seq<char> {
    match p.status {
        PlaybackStatus::Playing => "crest / undertow / mirror / glow · "@ + time_label_spec(p),
        PlaybackStatus::Paused => "held crest / undertow / mirror · "@ + time_label_spec(p),
        PlaybackStatus::Stopped => "idle glass / queue a track"@,
    }
}

pub fn compact_visualizer_caption_text(player: &PlayerState) -> (r: String)
    ensures
        r@ == wash_caption_spec(player@),
{
    match player.status {
        PlaybackStatus::Playing => {
            let t = compact_time_label(player);
            concat2("crest / undertow / mirror / glow · ", t.as_str())
        },
        PlaybackStatus::Paused => {
            let t = compact_time_label(player);
            concat2("held crest / undertow / mirror · ", t.as_str())
        },
        PlaybackStatus::Stopped => owned("idle glass / queue a track"),
    }
}

pub open spec fn rail_footer_spec(p: PlayerModel) -> Seq<char> {
    match p.status {
        PlaybackStatus::Stopped => "queue to wake rail"@,
        PlaybackStatus::Paused => preset_spec(p) + " · held · "@ + time_label_spec(p),
        PlaybackStatus::Playing => preset_spec(p) + " · crest · "@ + time_label_spec(p),
    }
}

pub fn signal_rail_footer_text(player: &PlayerState) -> (r: String)
    ensures
        r@ == rail_footer_spec(player@),
{
    match player.status {
        PlaybackStatus::Stopped => owned("queue to wake rail"),
        PlaybackStatus::Paused => {
            let t = compact_time_label(player);
            concat3(visualizer_preset(player), " · held · ", t.as_str())
        },
        PlaybackStatus::Playing => {
            let t = compact_time_label(player);
            concat3(visualizer_preset(player), " · crest · ", t.as_str())
        },
    }
}

/// The words of the status ribbon's transport: the loaded track and its
/// time, else the staged queue, else a standby note.
pub open spec fn transport_text_spec(p: PlayerModel) -> Seq<char> {
    match p.current_track {
        Some(t) => t.title + " · "@ + time_label_spec(p),
        None => if p.queue.len() > 0 {
            "Stack loaded · "@ + decimal(p.queue.len()) + " tracks waiting in the deck"@
        } else {
            "Standby deck — load something from the library lane"@
        },
    }
}

pub fn status_transport_text(player: &PlayerState) -> (r: String)
    ensures
        r@ == transport_text_spec(player@),
{
    match &player.current_track {
        Some(track) => {
            let t = compact_time_label(player);
            concat3(track.title.as_str(), " · ", t.as_str())
        },
        None => if player.queue.len() > 0 {
            let mut r = owned("Stack loaded · ");
            push_decimal(&mut r, player.queue.len() as u64);
            r.append(" tracks waiting in the deck");
            r
        } else {
            owned("Standby deck — load something from the library lane")
        },
    }
}

/// The queue marquee: the title with its context, else the staged queue,
/// else an invitation.
pub open spec fn marquee_text_spec(p: PlayerModel) -> Seq<char> {
    match p.current_track {
        Some(t) => {
            let context = crate::text::replaced(context_spec(p), "   "@, " · "@);
            if context.len() == 0 {
                t.title
            } else {
                t.title + " · "@ + context
            }
        },
        None => if p.queue.len() > 0 {
            "Stack loaded with "@ + decimal(p.queue.len()) + " tracks — press play to light the deck."@
        } else {
            "Pick a track from the library lane to seed the playback stack."@
        },
    }
}

pub fn queue_marquee_text(player: &PlayerState) -> (r: String)
    ensures
        r@ == marquee_text_spec(player@),
{
    match &player.current_track {
        Some(track) => {
            let raw = now_playing_context_text(player);
            proof {
                reveal_strlit("   ");
            }
            let context = crate::text::replace(raw.as_str(), "   ", " · ");
            if context.as_str().is_empty() {
                track.title.clone()
            } else {
                concat3(track.title.as_str(), " · ", context.as_str())
            }
        },
        None => if player.queue.len() > 0 {
            let mut r = owned("Stack loaded with ");
            push_decimal(&mut r, player.queue.len() as u64);
            r.append(" tracks — press play to light the deck.");
            r
        } else {
            owned("Pick a track from the library lane to seed the playback stack.")
        },
    }
}

pub open spec fn queue_footer_spec(p: PlayerModel) -> Seq<char> {
    if p.queue.len() == 0 {
        "Enter in the library lane seeds the playback stack."@
    } else {
        match p.status {
            PlaybackStatus::Playing => "n/p glides through the stack · Enter in the library lane reseeds the deck."@,
            PlaybackStatus::Paused => "Space relights the deck · Enter in the library lane swaps the stack."@,
            PlaybackStatus::Stopped => "Space starts the staged stack · Enter in the library lane rebuilds the deck."@,
        }
    }
}

pub fn queue_footer_text(player: &PlayerState) -> (r: &'static str)
    ensures
        r@ == queue_footer_spec(player@),
{
    if player.queue.len() == 0 {
        "Enter in the library lane seeds the playback stack."
    } else {
        match player.status {
            PlaybackStatus::Playing => "n/p glides through the stack · Enter in the library lane reseeds the deck.",
            PlaybackStatus::Paused => "Space relights the deck · Enter in the library lane swaps the stack.",
            PlaybackStatus::Stopped => "Space starts the staged stack · Enter in the library lane rebuilds the deck.",
        }
    }
}

// ---------------------------------------------------------------------------
// Marquee

/// How far the marquee has scrolled: not at all when stopped, by the seed
/// when paused, and further by `speed_tenths / 10` characters per second
/// of playback when playing; always within one cycle.
pub open spec fn marquee_offset_spec(p: PlayerModel, cycle_len: nat, speed_tenths: u64) -> nat {
    if cycle_len == 0 {
        0
    } else {
        match p.status {
            PlaybackStatus::Stopped => 0,
            PlaybackStatus::Paused => ((seed_spec(p) as usize) as nat) % cycle_len,
            PlaybackStatus::Playing => ((p.position * speed_tenths / 10000) + ((seed_spec(p) as usize)
                as nat) % cycle_len) as nat % cycle_len,
        }
    }
}

pub fn marquee_offset(player: &PlayerState, cycle_len: usize, speed_tenths: u64) -> (r: usize)
    ensures
        r == marquee_offset_spec(player@, cycle_len as nat, speed_tenths),
        cycle_len > 0 ==> r < cycle_len,
{
    if cycle_len == 0 {
        return 0;
    }
    match player.status {
        PlaybackStatus::Stopped => 0,
        PlaybackStatus::Paused => (track_seed(player) as usize) % cycle_len,
        PlaybackStatus::Playing => {
            let pos = player.position as u128;
            let speed = speed_tenths as u128;
            assert(pos * speed <= 0xffff_ffff_ffff_ffff * 0xffff_ffff_ffff_ffff) by (nonlinear_arith)
                requires
                    pos <= 0xffff_ffff_ffff_ffff,
                    speed <= 0xffff_ffff_ffff_ffff,
            ;
            let steps: u128 = pos * speed / 10000;
            let base: u128 = ((track_seed(player) as usize) % cycle_len) as u128;
            ((steps + base) % (cycle_len as u128)) as usize
        },
    }
}

/// The text scrolled through `width` characters: unchanged when it fits;
/// otherwise a window onto the text, a star separator and the text again.
pub open spec fn marquee_spec(p: PlayerModel, text: Seq<char>, width: usize, speed_tenths: u64) -> Seq<char> {
    if width == 0 {
        Seq::empty()
    } else if text.len() <= width {
        text
    } else {
        let cycle = text + "   ✦   "@ + text;
        let offset = marquee_offset_spec(p, text.len() + 7, speed_tenths);
        cycle.subrange(offset as int, offset + width)
    }
}

pub fn animated_marquee(player: &PlayerState, text: &str, width: usize, speed_tenths: u64) -> (r:
    String)
    ensures
        r@ == marquee_spec(player@, text@, width, speed_tenths),
        r@.len() == if text@.len() <= width {
            text@.len()
        } else {
            width as nat
        },
{
    if width == 0 {
        return String::new();
    }
    let chars = crate::text::chars_of(text);
    if chars.len() <= width {
        return owned(text);
    }
    let cycle_text = concat3(text, "   ✦   ", text);
    let cycle = crate::text::chars_of(cycle_text.as_str());
    proof {
        reveal_strlit("   ✦   ");
    }
    assert(cycle@.len() == 2 * text@.len() + 7);
    let cycle_len = cycle.len();
    let offset = marquee_offset(player, chars.len() + 7, speed_tenths);
    let mut r = String::new();
    let mut k: usize = 0;
    while k < width
        invariant
            k <= width,
            width < text@.len(),
            offset < text@.len() + 7,
            cycle@.len() == 2 * text@.len() + 7,
            cycle_len == cycle@.len(),
            r@ == cycle@.subrange(offset as int, offset + k),
        decreases width - k,
    {
        crate::text::push_char(&mut r, cycle[offset + k]);
        assert(cycle@.subrange(offset as int, offset + k + 1) =~= cycle@.subrange(
            offset as int,
            offset + k,
        ).push(cycle@[offset + k]));
        k = k + 1;
    }
    r
}

// ---------------------------------------------------------------------------
// The cue stack

/// The rows of the queue shown in `rows` lines: up to two rows before the
/// current one, then filling forward, pulled back when the end is reached.
pub open spec fn queue_window_spec(len: usize, queue_index: Option<usize>, rows: usize) -> (usize, usize, usize) {
    let visible: usize = if rows == 0 {
        1
    } else {
        rows
    };
    let wanted = match queue_index {
        Some(i) => i,
        None => 0,
    };
    let current: usize = if wanted < len {
        wanted
    } else {
        (len - 1) as usize
    };
    let back: usize = if visible - 1 < 2 {
        (visible - 1) as usize
    } else {
        2
    };
    let start0: usize = if current >= back {
        (current - back) as usize
    } else {
        0
    };
    let end0: usize = if start0 + visible <= len {
        (start0 + visible) as usize
    } else {
        len
    };
    if end0 - start0 < visible {
        let start: usize = if end0 >= visible {
            (end0 - visible) as usize
        } else {
            0
        };
        let end: usize = if start + visible <= len {
            (start + visible) as usize
        } else {
            len
        };
        (start, end, current)
    } else {
        (start0, end0, current)
    }
}

/// (first row, one past the last row, current row) of the visible queue.
pub fn queue_window(len: usize, queue_index: Option<usize>, rows: usize) -> (r: (usize, usize, usize))
    requires
        len > 0,
    ensures
        r == queue_window_spec(len, queue_index, rows),
        r.0 <= r.2 < r.1 <= len,
        r.1 - r.0 == if rows == 0 {
            1
        } else if rows <= len {
            rows as int
        } else {
            len as int
        },
{
    let visible: usize = if rows == 0 {
        1
    } else {
        rows
    };
    let wanted = match queue_index {
        Some(i) => i,
        None => 0,
    };
    let current: usize = if wanted < len {
        wanted
    } else {
        len - 1
    };
    let back: usize = if visible - 1 < 2 {
        visible - 1
    } else {
        2
    };
    let start0: usize = if current >= back {
        current - back
    } else {
        0
    };
    let end0: usize = if visible <= len - start0 {
        start0 + visible
    } else {
        len
    };
    if end0 - start0 < visible {
        let start: usize = if end0 >= visible {
            end0 - visible
        } else {
            0
        };
        let end: usize = if visible <= len - start {
            start + visible
        } else {
            len
        };
        (start, end, current)
    } else {
        (start0, end0, current)
    }
}

#[derive(Debug, Clone, Copy, PartialEq, Eq, Structural)]
pub enum QueueRole {
    /// The queue position.
    Air,
    /// The row right after the current one.
    Cue,
    /// Rows already played.
    Hold,
    /// Rows further ahead.
    Deep,
}

pub open spec fn role_spec(row: usize, queue_index: Option<usize>, current: usize) -> QueueRole {
    if queue_index == Some(row) {
        QueueRole::Air
    } else if row == current + 1 {
        QueueRole::Cue
    } else if row < current {
        QueueRole::Hold
    } else {
        QueueRole::Deep
    }
}

/// How a queue row is badged.
pub fn queue_row_role(row: usize, queue_index: Option<usize>, current: usize) -> (r: QueueRole)
    ensures
        r == role_spec(row, queue_index, current),
{
    let at_position = match queue_index {
        Some(i) => i == row,
        None => false,
    };
    if at_position {
        QueueRole::Air
    } else if current < usize::MAX && row == current + 1 {
        QueueRole::Cue
    } else if row < current {
        QueueRole::Hold
    } else {
        QueueRole::Deep
    }
}

/// The queue position counted from one and the queue's length, when a
/// position is set on a non-empty queue.
pub open spec fn stack_position_spec(p: PlayerModel) -> Option<(nat, nat)> {
    match p.queue_index {
        Some(i) => if p.queue.len() > 0 {
            Some(((i + 1) as nat, p.queue.len()))
        } else {
            None
        },
        None => None,
    }
}

pub fn stack_position(player: &PlayerState) -> (r: Option<(usize, usize)>)
    requires
        player.queue_index matches Some(i) ==> i < usize::MAX,
    ensures
        match stack_position_spec(player@) {
            Some((a, b)) => r matches Some((x, y)) && x == a && y == b,
            None => r is None,
        },
{
    match player.queue_index {
        Some(i) => if player.queue.len() > 0 {
            Some((i + 1, player.queue.len()))
        } else {
            None
        },
        None => None,
    }
}

// ---------------------------------------------------------------------------
// Status ribbon and deck guide

pub open spec fn focus_state_spec(focus: crate::app::FocusPane, status: PlaybackStatus) -> Seq<char> {
    match focus {
        crate::app::FocusPane::Browser => match status {
            PlaybackStatus::Playing => " LIB • PLAY "@,
            PlaybackStatus::Paused => " LIB • PAUSE "@,
            PlaybackStatus::Stopped => " LIB • STOP "@,
        },
        crate::app::FocusPane::Player => match status {
            PlaybackStatus::Playing => " DECK • PLAY "@,
            PlaybackStatus::Paused => " DECK • PAUSE "@,
            PlaybackStatus::Stopped => " DECK • STOP "@,
        },
    }
}

/// The compact status ribbon's badge: lane and transport state.
pub fn compact_status_text(focus: crate::app::FocusPane, status: PlaybackStatus) -> (r: &'static str)
    ensures
        r@ == focus_state_spec(focus, status),
{
    match focus {
        crate::app::FocusPane::Browser => match status {
            PlaybackStatus::Playing => " LIB • PLAY ",
            PlaybackStatus::Paused => " LIB • PAUSE ",
            PlaybackStatus::Stopped => " LIB • STOP ",
        },
        crate::app::FocusPane::Player => match status {
            PlaybackStatus::Playing => " DECK • PLAY ",
            PlaybackStatus::Paused => " DECK • PAUSE ",
            PlaybackStatus::Stopped => " DECK • STOP ",
        },
    }
}

/// The volume as the ribbon shows it: the percentage right-aligned in three
/// columns, then "%".
pub open spec fn volume_text_spec(volume: u32) -> Seq<char> {
    let digits = decimal(volume as nat);
    if digits.len() >= 3 {
        digits + "%"@
    } else {
        Seq::new((3 - digits.len()) as nat, |i: int| ' ') + digits + "%"@
    }
}

pub fn volume_text(volume: u32) -> (r: String)
    ensures
        r@ == volume_text_spec(volume),
{
    let mut digits = String::new();
    push_decimal(&mut digits, volume as u64);
    assert(digits@ =~= decimal(volume as nat));
    let n = crate::text::char_count(digits.as_str());
    let mut r = String::new();
    if n < 3 {
        let mut k: usize = 0;
        while k < 3 - n
            invariant
                n < 3,
                k <= 3 - n,
                r@ == Seq::new(k as nat, |i: int| ' '),
            decreases 3 - n - k,
        {
            crate::text::push_char(&mut r, ' ');
            assert(r@ =~= Seq::new((k + 1) as nat, |i: int| ' '));
            k = k + 1;
        }
    }
    r.append(digits.as_str());
    r.append("%");
    proof {
        if n >= 3 {
            assert(r@ =~= digits@ + "%"@);
        }
    }
    r
}

/// The deck guide's groups for a band of `rows` lines: each a label and
/// the keys it explains.
pub open spec fn help_groups_spec(rows: usize) -> Seq<(Seq<char>, Seq<char>)> {
    let n = if rows == 0 {
        1
    } else if rows > 4 {
        4
    } else {
        rows
    };
    if n == 1 {
        seq![("FLOW"@, "Enter cue/play · Tab lane↔deck · Space play/pause · j/k browse/vol"@)]
    } else if n == 2 {
        seq![
            ("TRANSPORT"@, "Space play/pause · s stop deck · n/p step stack"@),
            ("FLOW"@, "Enter cue/play · Tab lane↔deck · j/k browse/vol · h/l seek ribbon"@),
        ]
    } else if n == 3 {
        seq![
            ("TRANSPORT"@, "Space play/pause · s stop deck · n/p step stack"@),
            ("BROWSER"@, "j/k move tree · Enter open/play · ←/→ fold folders"@),
            ("DECK"@, "Tab lane↔deck · j/k volume · +/- trim glass · h/l seek ribbon"@),
        ]
    } else {
        seq![
            ("TRANSPORT"@, "Space play/pause · s stop deck · n/p step stack"@),
            ("BROWSER"@, "j/k move tree · Enter open/play · ←/→ fold folders"@),
            ("DECK"@, "j/k volume · +/- fine tune · h/l seek ribbon"@),
            ("FOCUS"@, "Tab lane↔deck focus · q exits the deck"@),
        ]
    }
}

pub open spec fn pair_views(v: Seq<(&str, &str)>) -> Seq<(Seq<char>, Seq<char>)> {
    v.map_values(|p: (&str, &str)| (p.0@, p.1@))
}

pub fn help_groups(rows: usize) -> (r: Vec<(&'static str, &'static str)>)
    ensures
        pair_views(r@) == help_groups_spec(rows),
{
    let n = if rows == 0 {
        1
    } else if rows > 4 {
        4
    } else {
        rows
    };
    let r = if n == 1 {
        vec![("FLOW", "Enter cue/play · Tab lane↔deck · Space play/pause · j/k browse/vol")]
    } else if n == 2 {
        vec![
            ("TRANSPORT", "Space play/pause · s stop deck · n/p step stack"),
            ("FLOW", "Enter cue/play · Tab lane↔deck · j/k browse/vol · h/l seek ribbon"),
        ]
    } else if n == 3 {
        vec![
            ("TRANSPORT", "Space play/pause · s stop deck · n/p step stack"),
            ("BROWSER", "j/k move tree · Enter open/play · ←/→ fold folders"),
            ("DECK", "Tab lane↔deck · j/k volume · +/- trim glass · h/l seek ribbon"),
        ]
    } else {
        vec![
            ("TRANSPORT", "Space play/pause · s stop deck · n/p step stack"),
            ("BROWSER", "j/k move tree · Enter open/play · ←/→ fold folders"),
            ("DECK", "j/k volume · +/- fine tune · h/l seek ribbon"),
            ("FOCUS", "Tab lane↔deck focus · q exits the deck"),
        ]
    };
    assert(pair_views(r@) =~= help_groups_spec(rows));
    r
}

// ---------------------------------------------------------------------------
// Badges

pub open spec fn kind_label_spec(entry: Option<EntryView>) -> Seq<char> {
    match entry {
        Some(e) => if e.kind == EntryKind::Directory {
            "FOLDER"@
        } else {
            "TRACK"@
        },
        None => "EMPTY"@,
    }
}

/// The badge after a file row's name: its extension in ASCII capitals.
pub open spec fn entry_badge_spec(e: EntryView) -> Option<Seq<char>> {
    if e.kind == EntryKind::File {
        match crate::paths::path_extension(e.path) {
            Some(x) => Some(crate::text::ascii_upper(x)),
            None => None,
        }
    } else {
        None
    }
}

pub fn entry_badge(entry: &BrowserEntry) -> (r: Option<String>)
    ensures
        opt_view(r) == entry_badge_spec(entry@),
{
    match entry.kind {
        EntryKind::File => match crate::paths::extension(entry.path.as_str()) {
            Some(x) => Some(crate::text::ascii_uppercase(x.as_str())),
            None => None,
        },
        EntryKind::Directory => None,
    }
}

/// The lane monitor's badge for what the selected row is.
pub fn browser_kind_label(entry: Option<&BrowserEntry>) -> (r: &'static str)
    ensures
        r@ == kind_label_spec(entry_opt_view(entry)),
{
    match entry {
        Some(e) => match e.kind {
            EntryKind::Directory => "FOLDER",
            EntryKind::File => "TRACK",
        },
        None => "EMPTY",
    }
}

pub open spec fn state_label_spec(entry: Option<EntryView>) -> Seq<char> {
    match entry {
        Some(e) => if e.kind == EntryKind::Directory && e.expanded {
            "OPEN"@
        } else if e.kind == EntryKind::Directory {
            "CLOSED"@
        } else {
            "READY"@
        },
        None => "IDLE"@,
    }
}

/// The lane monitor's badge for the selected row's state.
pub fn browser_state_label(entry: Option<&BrowserEntry>) -> (r: &'static str)
    ensures
        r@ == state_label_spec(entry_opt_view(entry)),
{
    match entry {
        Some(e) => if e.kind == EntryKind::Directory && e.expanded {
            "OPEN"
        } else if e.kind == EntryKind::Directory {
            "CLOSED"
        } else {
            "READY"
        },
        None => "IDLE",
    }
}

pub open spec fn status_word_spec(s: PlaybackStatus) -> Seq<char> {
    match s {
        PlaybackStatus::Playing => "PLAYING"@,
        PlaybackStatus::Paused => "PAUSED"@,
        PlaybackStatus::Stopped => "STOPPED"@,
    }
}

/// The deck's transport badge.
pub fn status_word(status: &PlaybackStatus) -> (r: &'static str)
    ensures
        r@ == status_word_spec(*status),
{
    match status {
        PlaybackStatus::Playing => "PLAYING",
        PlaybackStatus::Paused => "PAUSED",
        PlaybackStatus::Stopped => "STOPPED",
    }
}

pub open spec fn short_word_spec(s: PlaybackStatus) -> Seq<char> {
    match s {
        PlaybackStatus::Playing => "PLAY"@,
        PlaybackStatus::Paused => "PAUSE"@,
        PlaybackStatus::Stopped => "STOP"@,
    }
}

/// The short transport badge of the compact deck and the status ribbon.
pub fn short_status_word(status: &PlaybackStatus) -> (r: &'static str)
    ensures
        r@ == short_word_spec(*status),
{
    match status {
        PlaybackStatus::Playing => "PLAY",
        PlaybackStatus::Paused => "PAUSE",
        PlaybackStatus::Stopped => "STOP",
    }
}

pub open spec fn live_word_spec(s: PlaybackStatus) -> Seq<char> {
    match s {
        PlaybackStatus::Playing => "LIVE"@,
        PlaybackStatus::Paused => "HOLD"@,
        PlaybackStatus::Stopped => "IDLE"@,
    }
}

/// The visualizer's state badge.
pub fn visualizer_state_word(status: &PlaybackStatus) -> (r: &'static str)
    ensures
        r@ == live_word_spec(*status),
{
    match status {
        PlaybackStatus::Playing => "LIVE",
        PlaybackStatus::Paused => "HOLD",
        PlaybackStatus::Stopped => "IDLE",
    }
}

pub open spec fn transport_center_spec(s: PlaybackStatus) -> Seq<char> {
    match s {
        PlaybackStatus::Playing => "PAUSE"@,
        _ => "PLAY"@,
    }
}

/// The middle transport button: what pressing Space would do.
pub fn transport_center_label(status: &PlaybackStatus) -> (r: &'static str)
    ensures
        r@ == transport_center_spec(*status),
{
    match status {
        PlaybackStatus::Playing => "PAUSE",
        _ => "PLAY",
    }
}

/// The transport cluster's buttons for a deck `width` columns wide: all
/// four and the time from 58 columns, without STOP from 40, else just the
/// middle button and the time.
pub open spec fn transport_labels_spec(p: PlayerModel, width: usize) -> Seq<Seq<char>> {
    let w = if width < 24 {
        24
    } else {
        width
    };
    let center = transport_center_spec(p.status);
    let time = time_label_spec(p);
    if w >= 58 {
        seq!["PREV"@, center, "STOP"@, "NEXT"@, time]
    } else if w >= 40 {
        seq!["PREV"@, center, "NEXT"@, time]
    } else {
        seq![center, time]
    }
}

pub open spec fn strings_view(v: Seq<String>) -> Seq<Seq<char>> {
    v.map_values(|s: String| s@)
}

pub fn transport_labels(player: &PlayerState, width: usize) -> (r: Vec<String>)
    ensures
        strings_view(r@) == transport_labels_spec(player@, width),
{
    let w = if width < 24 {
        24
    } else {
        width
    };
    let center = owned(transport_center_label(&player.status));
    let time = compact_time_label(player);
    let r = if w >= 58 {
        vec![owned("PREV"), center, owned("STOP"), owned("NEXT"), time]
    } else if w >= 40 {
        vec![owned("PREV"), center, owned("NEXT"), time]
    } else {
        vec![center, time]
    };
    assert(strings_view(r@) =~= transport_labels_spec(player@, width));
    r
}

/// The now-playing header's chips: NOW PLAYING and the collection, the
/// preset from 40 columns, the rating from 62.
pub open spec fn header_labels_spec(p: PlayerModel, width: usize) -> Seq<Seq<char>> {
    let base = seq!["NOW PLAYING"@, collection_spec()];
    let with_preset = if width >= 40 {
        base.push(preset_spec(p))
    } else {
        base
    };
    if width >= 62 {
        with_preset.push(rating_text_spec(p))
    } else {
        with_preset
    }
}

pub fn now_playing_header_labels(player: &PlayerState, width: usize) -> (r: Vec<String>)
    ensures
        strings_view(r@) == header_labels_spec(player@, width),
{
    let mut r = vec![owned("NOW PLAYING"), owned(visualizer_collection())];
    if width >= 40 {
        r.push(owned(visualizer_preset(player)));
    }
    if width >= 62 {
        r.push(deck_rating_text(player));
    }
    assert(strings_view(r@) =~= header_labels_spec(player@, width));
    r
}

/// The signal deck header's chips: state and collection, the preset from
/// 34 columns, REFLECT + GLOW from 54.
pub open spec fn visualizer_header_spec(p: PlayerModel, width: usize) -> Seq<Seq<char>> {
    let base = seq![live_word_spec(p.status), collection_spec()];
    let with_preset = if width >= 34 {
        base.push(preset_spec(p))
    } else {
        base
    };
    if width >= 54 {
        with_preset.push("REFLECT + GLOW"@)
    } else {
        with_preset
    }
}

pub fn visualizer_header_labels(player: &PlayerState, width: usize) -> (r: Vec<String>)
    ensures
        strings_view(r@) == visualizer_header_spec(player@, width),
{
    let mut r = vec![owned(visualizer_state_word(&player.status)), owned(visualizer_collection())];
    if width >= 34 {
        r.push(owned(visualizer_preset(player)));
    }
    if width >= 54 {
        r.push(owned("REFLECT + GLOW"));
    }
    assert(strings_view(r@) =~= visualizer_header_spec(player@, width));
    r
}

/// The compact signal deck header's chips: state and preset, the
/// collection from 46 columns, the time from 62.
pub open spec fn compact_header_spec(p: PlayerModel, width: usize) -> Seq<Seq<char>> {
    let base = seq![live_word_spec(p.status), preset_spec(p)];
    let with_collection = if width >= 46 {
        base.push(collection_spec())
    } else {
        base
    };
    if width >= 62 {
        with_collection.push(time_label_spec(p))
    } else {
        with_collection
    }
}

pub fn compact_visualizer_header_labels(player: &PlayerState, width: usize) -> (r: Vec<String>)
    ensures
        strings_view(r@) == compact_header_spec(player@, width),
{
    let mut r = vec![owned(visualizer_state_word(&player.status)), owned(visualizer_preset(player))];
    if width >= 46 {
        r.push(owned(visualizer_collection()));
    }
    if width >= 62 {
        r.push(compact_time_label(player));
    }
    assert(strings_view(r@) =~= compact_header_spec(player@, width));
    r
}

/// The deck's source line: the shelf (from 58 columns) and folder (from 40)
/// of the loaded track, its codec, and its length (from 54); a placeholder
/// when none of these applies.
pub open spec fn source_labels_spec(p: PlayerModel, width: usize) -> Seq<Seq<char>> {
    let a = if width >= 58 && shelf_spec(p) is Some {
        seq!["SHELF "@ + fit_spec(shelf_spec(p)->0, 12)]
    } else {
        Seq::empty()
    };
    let b = if width >= 40 && folder_spec(p) is Some {
        seq!["FOLDER "@ + fit_spec(folder_spec(p)->0, 12)]
    } else {
        Seq::empty()
    };
    let c = if codec_spec(p) is Some {
        seq!["CODEC "@ + fit_spec(codec_spec(p)->0, 5)]
    } else {
        Seq::empty()
    };
    let d = if width >= 54 {
        if p.current_track is Some && p.duration is Some {
            seq!["LEN "@ + duration_spec(p.duration->0)]
        } else if p.current_track is Some {
            seq!["LEN --:--"@]
        } else {
            seq!["PRESS ENTER"@]
        }
    } else {
        Seq::empty()
    };
    let all = a + b + c + d;
    if all.len() > 0 {
        all
    } else if width >= 42 {
        seq!["LIBRARY LANE"@, "PRESS ENTER"@]
    } else {
        seq!["LIBRARY LANE"@]
    }
}

pub fn deck_source_labels(player: &PlayerState, width: usize) -> (r: Vec<String>)
    ensures
        strings_view(r@) == source_labels_spec(player@, width),
{
    let ghost p = player@;
    let mut r: Vec<String> = Vec::new();
    if width >= 58 {
        match track_shelf_label(player) {
            Some(shelf) => {
                let f = fit_text(shelf.as_str(), 12);
                r.push(concat2("SHELF ", f.as_str()));
            },
            None => {},
        }
    }
    if width >= 40 {
        match track_folder_label(player) {
            Some(folder) => {
                let f = fit_text(folder.as_str(), 12);
                r.push(concat2("FOLDER ", f.as_str()));
            },
            None => {},
        }
    }
    match track_codec_label(player) {
        Some(codec) => {
            let f = fit_text(codec.as_str(), 5);
            r.push(concat2("CODEC ", f.as_str()));
        },
        None => {},
    }
    if width >= 54 {
        if player.current_track.is_some() {
            match player.duration {
                Some(d) => {
                    let t = format_duration(d);
                    r.push(concat2("LEN ", t.as_str()));
                },
                None => r.push(owned("LEN --:--")),
            }
        } else {
            r.push(owned("PRESS ENTER"));
        }
    }
    let ghost a = if width >= 58 && shelf_spec(p) is Some {
        seq!["SHELF "@ + fit_spec(shelf_spec(p)->0, 12)]
    } else {
        Seq::empty()
    };
    let ghost b = if width >= 40 && folder_spec(p) is Some {
        seq!["FOLDER "@ + fit_spec(folder_spec(p)->0, 12)]
    } else {
        Seq::empty()
    };
    let ghost c = if codec_spec(p) is Some {
        seq!["CODEC "@ + fit_spec(codec_spec(p)->0, 5)]
    } else {
        Seq::empty()
    };
    assert(strings_view(r@).take((a + b + c).len() as int) =~= a + b + c);
    assert(strings_view(r@) =~= source_labels_spec(p, width) || r.len() == 0);
    if r.len() == 0 {
        r.push(owned("LIBRARY LANE"));
        if width >= 42 {
            r.push(owned("PRESS ENTER"));
        }
    }
    assert(strings_view(r@) =~= source_labels_spec(p, width));
    r
}

// ---------------------------------------------------------------------------
// Album tile

/// Name for `char::is_alphanumeric`.
pub uninterp spec fn is_alnum(c: char) -> bool;

/// Name for what `char::to_uppercase` yields, collected.
pub uninterp spec fn char_upper(c: char) -> Seq<char>;

/// `char::is_alphanumeric`: its answer is the named result, nothing more.
#[verifier::external_body]
fn char_is_alphanumeric(c: char) -> (r: bool)
    ensures
        r == is_alnum(c),
{
    c.is_alphanumeric()
}

/// `char::to_uppercase`, collected into a string: the named result.
#[verifier::external_body]
fn char_to_uppercase(c: char) -> (r: String)
    ensures
        r@ == char_upper(c),
{
    c.to_uppercase().collect()
}

/// The first letters (upper-cased) of the first two alphanumeric runs of
/// `s[..n]`, scanning from the start.
pub open spec fn initials(s: Seq<char>, n: nat) -> (Seq<char>, nat)
    decreases n,
{
    if n == 0 || n > s.len() {
        (Seq::empty(), 0)
    } else {
        let (acc, words) = initials(s, (n - 1) as nat);
        let i = n - 1;
        let starts = is_alnum(s[i]) && (i == 0 || !is_alnum(s[i - 1]));
        if starts && words < 2 {
            (acc + char_upper(s[i]), words + 1)
        } else {
            (acc, words)
        }
    }
}

/// The first two alphanumeric characters of `s[..n]`, upper-cased.
pub open spec fn first_alnums(s: Seq<char>, n: nat) -> (Seq<char>, nat)
    decreases n,
{
    if n == 0 || n > s.len() {
        (Seq::empty(), 0)
    } else {
        let (acc, count) = first_alnums(s, (n - 1) as nat);
        if is_alnum(s[n - 1]) && count < 2 {
            (acc + char_upper(s[n - 1]), count + 1)
        } else {
            (acc, count)
        }
    }
}

pub open spec fn monogram_source(p: PlayerModel) -> Seq<char> {
    match p.current_track {
        Some(t) => t.title,
        None => match folder_spec(p) {
            Some(f) => f,
            None => "Terminal Audio Player"@,
        },
    }
}

/// Up to three letters for the album tile: the initials of the title's
/// first two words (else its first two letters), "TAP" when there are none.
pub open spec fn monogram_spec(p: PlayerModel) -> Seq<char> {
    let src = monogram_source(p);
    let first = initials(src, src.len()).0;
    let m = if first.len() > 0 {
        first
    } else {
        first_alnums(src, src.len()).0
    };
    if m.len() == 0 {
        "TAP"@
    } else if m.len() > 3 {
        m.take(3)
    } else {
        m
    }
}

pub fn album_tile_monogram(player: &PlayerState) -> (r: String)
    ensures
        r@ == monogram_spec(player@),
{
    let source: String = match &player.current_track {
        Some(t) => t.title.clone(),
        None => match track_folder_label(player) {
            Some(f) => f,
            None => owned("Terminal Audio Player"),
        },
    };
    let chars = crate::text::chars_of(source.as_str());
    let ghost src = source@;
    let mut first = String::new();
    let mut words: usize = 0;
    let mut i: usize = 0;
    while i < chars.len()
        invariant
            chars@ == src,
            i <= chars@.len(),
            (first@, words as nat) == initials(src, i as nat),
            words <= 2,
        decreases chars@.len() - i,
    {
        let here = char_is_alphanumeric(chars[i]);
        let before = if i == 0 {
            false
        } else {
            char_is_alphanumeric(chars[i - 1])
        };
        if here && !before && words < 2 {
            let u = char_to_uppercase(chars[i]);
            first.append(u.as_str());
            words = words + 1;
        }
        i = i + 1;
    }
    let mut m = first;
    if m.as_str().is_empty() {
        let mut count: usize = 0;
        let mut j: usize = 0;
        while j < chars.len()
            invariant
                chars@ == src,
                j <= chars@.len(),
                (m@, count as nat) == first_alnums(src, j as nat),
                count <= 2,
            decreases chars@.len() - j,
        {
            if char_is_alphanumeric(chars[j]) && count < 2 {
                let u = char_to_uppercase(chars[j]);
                m.append(u.as_str());
                count = count + 1;
            }
            j = j + 1;
        }
    }
    let mc = crate::text::chars_of(m.as_str());
    if mc.len() == 0 {
        owned("TAP")
    } else if mc.len() > 3 {
        let r = crate::text::string_from_chars(&mc.as_slice()[0..3]);
        r
    } else {
        m
    }
}

/// The album tile's meta line: codec and preset (from 10 columns), else
/// the state badge, fitted to the tile.
pub open spec fn tile_meta_spec(p: PlayerModel, width: usize) -> Seq<char> {
    let w: nat = if width == 0 {
        1
    } else {
        width as nat
    };
    if p.current_track is None {
        fit_spec("queue to cue"@, w)
    } else {
        let a = match codec_spec(p) {
            Some(c) => seq![c],
            None => Seq::empty(),
        };
        let b = if width >= 10 {
            a.push(preset_spec(p))
        } else {
            a
        };
        let parts = if b.len() == 0 {
            seq![title_state_spec(p.status)]
        } else {
            b
        };
        fit_spec(joined(parts, " • "@), w)
    }
}

pub fn album_tile_meta_text(player: &PlayerState, width: usize) -> (r: String)
    ensures
        r@ == tile_meta_spec(player@, width),
{
    let w = if width == 0 {
        1
    } else {
        width
    };
    if player.current_track.is_none() {
        return fit_text("queue to cue", w);
    }
    let mut parts: Vec<String> = Vec::new();
    match track_codec_label(player) {
        Some(c) => parts.push(c),
        None => {},
    }
    if width >= 10 {
        parts.push(owned(visualizer_preset(player)));
    }
    if parts.len() == 0 {
        parts.push(owned(title_state_text(&player.status)));
    }
    let ghost p = player@;
    let ghost a = match codec_spec(p) {
        Some(c) => seq![c],
        None => Seq::<Seq<char>>::empty(),
    };
    let ghost b = if width >= 10 {
        a.push(preset_spec(p))
    } else {
        a
    };
    let ghost want = if b.len() == 0 {
        seq![title_state_spec(p.status)]
    } else {
        b
    };
    assert(parts@.map_values(|q: String| q@).skip(0) =~= want);
    let joined_text = crate::text::join_from(&parts, 0, " • ");
    fit_text(joined_text.as_str(), w)
}

// ---------------------------------------------------------------------------
// Queue counters

/// "i / n" with the queue position counted from one, when it is set on a
/// non-empty queue.
pub open spec fn counter_spec(p: PlayerModel, sep: Seq<char>, none: Seq<char>) -> Seq<char> {
    match stack_position_spec(p) {
        Some((i, n)) => decimal(i) + sep + decimal(n),
        None => none,
    }
}

fn counter_text(player: &PlayerState, sep: &str, none: &str) -> (r: String)
    requires
        player.queue_index matches Some(i) ==> i < usize::MAX,
    ensures
        r@ == counter_spec(player@, sep@, none@),
{
    match stack_position(player) {
        Some((i, n)) => {
            let mut r = String::new();
            push_decimal(&mut r, i as u64);
            r.append(sep);
            push_decimal(&mut r, n as u64);
            assert(r@ =~= decimal(i as nat) + sep@ + decimal(n as nat));
            r
        },
        None => owned(none),
    }
}

/// The deck's queue counter: "i / n", else "0 / 0".
pub fn queue_counter_text(player: &PlayerState) -> (r: String)
    requires
        player.queue_index matches Some(i) ==> i < usize::MAX,
    ensures
        r@ == counter_spec(player@, " / "@, "0 / 0"@),
{
    counter_text(player, " / ", "0 / 0")
}

/// The status ribbon's stack badge: "STACK i/n", else "STACK 0/0".
pub fn ribbon_stack_label(player: &PlayerState) -> (r: String)
    requires
        player.queue_index matches Some(i) ==> i < usize::MAX,
    ensures
        r@ == "STACK "@ + counter_spec(player@, "/"@, "0/0"@),
{
    let c = counter_text(player, "/", "0/0");
    concat2("STACK ", c.as_str())
}

/// The title bar's stack badge: "STACK i/n", else "STACK n".
pub fn title_stack_label(player: &PlayerState) -> (r: String)
    requires
        player.queue_index matches Some(i) ==> i < usize::MAX,
    ensures
        r@ == "STACK "@ + counter_spec(player@, "/"@, decimal(player@.queue.len())),
{
    let mut count = String::new();
    push_decimal(&mut count, player.queue.len() as u64);
    let c = counter_text(player, "/", count.as_str());
    concat2("STACK ", c.as_str())
}

pub open spec fn track_name_spec(p: PlayerModel) -> Seq<char> {
    match p.current_track {
        Some(t) => t.title,
        None => "Pick a track in the library lane and press Enter"@,
    }
}

/// The loaded track's title, or how to load one.
pub fn track_name_or_hint(player: &PlayerState) -> (r: String)
    ensures
        r@ == track_name_spec(player@),
{
    match &player.current_track {
        Some(t) => t.title.clone(),
        None => owned("Pick a track in the library lane and press Enter"),
    }
}

/// The cue stack's summary badges.
pub open spec fn summary_labels_spec(p: PlayerModel) -> Seq<Seq<char>> {
    if p.queue.len() == 0 {
        seq!["CABINET"@, "EMPTY"@, "LOAD TRACK"@]
    } else {
        match p.queue_index {
            Some(i) => seq![
                "STACK "@ + decimal((i + 1) as nat) + "/"@ + decimal(p.queue.len()),
                "ON AIR"@,
                "NEXT "@ + decimal(if p.queue.len() >= i + 1 {
                    (p.queue.len() - (i + 1)) as nat
                } else {
                    0
                }),
                duration_spec(p.position),
            ],
            None => seq!["STACK "@ + decimal(p.queue.len()), "STAGED"@, "PRESS PLAY"@],
        }
    }
}

pub fn queue_summary_labels(player: &PlayerState) -> (r: Vec<String>)
    requires
        player.queue_index matches Some(i) ==> i < usize::MAX,
    ensures
        strings_view(r@) == summary_labels_spec(player@),
{
    let len = player.queue.len();
    let r = if len == 0 {
        vec![owned("CABINET"), owned("EMPTY"), owned("LOAD TRACK")]
    } else {
        match player.queue_index {
            Some(i) => {
                let mut stack = owned("STACK ");
                push_decimal(&mut stack, (i + 1) as u64);
                stack.append("/");
                push_decimal(&mut stack, len as u64);
                let remaining: usize = if len >= i + 1 {
                    len - (i + 1)
                } else {
                    0
                };
                let mut next = owned("NEXT ");
                push_decimal(&mut next, remaining as u64);
                vec![stack, owned("ON AIR"), next, format_duration(player.position)]
            },
            None => {
                let mut stack = owned("STACK ");
                push_decimal(&mut stack, len as u64);
                vec![stack, owned("STAGED"), owned("PRESS PLAY")]
            },
        }
    };
    assert(strings_view(r@) =~= summary_labels_spec(player@));
    r
}

// ---------------------------------------------------------------------------
// Visualizer footer

/// The signal deck's footer line.
#[derive(Debug)]
pub enum FooterLine {
    /// Under 26 columns: the wash caption alone.
    Caption(String),
    /// Under 46 columns: the preset between arrows.
    Arrows(String),
    /// The preset counter ("VIS 0k/04"), the preset, the state badge from 58
    /// columns, and the wash caption when 12 columns remain for it.
    Full { counter: String, preset: String, state: Option<String>, caption: Option<String> },
}

pub open spec fn footer_used_width(preset: Seq<char>, state: Option<Seq<char>>) -> int {
    let badge: int = match state {
        Some(t) => 3 + t.len() as int,
        None => 0,
    };
    22 + preset.len() + badge
}

pub open spec fn footer_spec_full(p: PlayerModel, w: int) -> (Seq<char>, Seq<char>, Option<Seq<char>>, Option<Seq<char>>) {
    let counter = "VIS 0"@ + decimal((preset_index_spec(p) + 1) as nat) + "/04"@;
    let preset = preset_spec(p);
    let state = if w >= 58 {
        Some(live_word_spec(p.status))
    } else {
        None
    };
    let remaining = w - (footer_used_width(preset, state) + 1);
    let caption = if remaining >= 12 {
        Some(fit_spec(wash_caption_spec(p), remaining as nat))
    } else {
        None
    };
    (counter, preset, state, caption)
}

pub open spec fn footer_view(f: FooterLine) -> (int, Seq<char>, Seq<char>, Option<Seq<char>>, Option<Seq<char>>) {
    match f {
        FooterLine::Caption(t) => (0, t@, Seq::empty(), None, None),
        FooterLine::Arrows(t) => (1, t@, Seq::empty(), None, None),
        FooterLine::Full { counter, preset, state, caption } => (
            2,
            counter@,
            preset@,
            opt_view(state),
            opt_view(caption),
        ),
    }
}

pub open spec fn footer_spec(p: PlayerModel, width: usize) -> (int, Seq<char>, Seq<char>, Option<Seq<char>>, Option<Seq<char>>) {
    let w: int = if width < 12 {
        12
    } else {
        width as int
    };
    if w < 26 {
        (0, fit_spec(wash_caption_spec(p), w as nat), Seq::empty(), None, None)
    } else if w < 46 {
        (1, fit_spec(preset_spec(p), if w - 12 >= 6 {
            (w - 12) as nat
        } else {
            6
        }), Seq::empty(), None, None)
    } else {
        let (c, pr, st, cap) = footer_spec_full(p, w);
        (2, c, pr, st, cap)
    }
}

pub fn visualizer_footer(player: &PlayerState, width: usize) -> (r: FooterLine)
    ensures
        footer_view(r) == footer_spec(player@, width),
{
    let w = if width < 12 {
        12
    } else {
        width
    };
    if w < 26 {
        let caption = compact_visualizer_caption_text(player);
        return FooterLine::Caption(fit_text(caption.as_str(), w));
    }
    if w < 46 {
        let room = if w - 12 >= 6 {
            w - 12
        } else {
            6
        };
        return FooterLine::Arrows(fit_text(visualizer_preset(player), room));
    }
    proof {
        reveal_strlit("LIVE");
        reveal_strlit("HOLD");
        reveal_strlit("IDLE");
        reveal_strlit("Bars");
        reveal_strlit("Ocean Mist");
        reveal_strlit("Fire Storm");
        reveal_strlit("Scope");
    }
    let index = visualizer_preset_index(player);
    let mut counter = owned("VIS 0");
    push_decimal(&mut counter, (index + 1) as u64);
    counter.append("/04");
    let preset = owned(visualizer_preset(player));
    let state = if w >= 58 {
        Some(owned(visualizer_state_word(&player.status)))
    } else {
        None
    };
    let preset_len = crate::text::char_count(preset.as_str());
    let state_len: usize = match &state {
        Some(t) => 3 + crate::text::char_count(t.as_str()),
        None => 0,
    };
    let used: usize = 22 + preset_len + state_len;
    let caption = if w >= used + 1 && w - (used + 1) >= 12 {
        let text = compact_visualizer_caption_text(player);
        Some(fit_text(text.as_str(), w - (used + 1)))
    } else {
        None
    };
    FooterLine::Full { counter, preset, state, caption }
}

/// Columns of the wave, the gap and the caption when they share a line.
pub open spec fn wave_caption_spec(width: usize) -> (int, int, int) {
    let gap: int = if width >= 56 {
        3
    } else {
        2
    };
    let want: int = if width >= 68 {
        34
    } else if width >= 54 {
        28
    } else {
        20
    };
    let wave: int = if width - (want + gap) >= 12 {
        width - (want + gap)
    } else {
        12
    };
    let caption: int = if width - (wave + gap) >= 10 {
        width - (wave + gap)
    } else {
        10
    };
    (wave, gap, caption)
}

pub fn wave_caption_widths(width: usize) -> (r: (usize, usize, usize))
    ensures
        (r.0 as int, r.1 as int, r.2 as int) == wave_caption_spec(width),
{
    let gap: usize = if width >= 56 {
        3
    } else {
        2
    };
    let want: usize = if width >= 68 {
        34
    } else if width >= 54 {
        28
    } else {
        20
    };
    let wave: usize = if width >= want + gap && width - (want + gap) >= 12 {
        width - (want + gap)
    } else {
        12
    };
    let caption: usize = if width >= wave + gap && width - (wave + gap) >= 10 {
        width - (wave + gap)
    } else {
        10
    };
    (wave, gap, caption)
}

// ---------------------------------------------------------------------------
// Spectrum glyphs

/// The glyph of one spectrum cell, column `index` at `level` (1 is the
/// bottom row, `rows` the top), for the bar heights `heights`, and whether
/// it is lit in its row's colour (`false`: drawn dim). A filled cell is a
/// full block, a rounded crest at the bar's top (a cut crest on the top two
/// rows where a neighbour is lower), or a tall block on the top two rows at
/// a shoulder; the cell just above a bar next to a taller one holds a ghost
/// dot; the bottom row shows a faint dot every sixth column.
pub open spec fn spectrum_glyph_spec(heights: Seq<usize>, index: int, level: usize, rows: usize) -> (char, bool) {
    let h = heights[index];
    let left = if index > 0 {
        heights[index - 1]
    } else {
        h
    };
    let right = if index + 1 < heights.len() {
        heights[index + 1]
    } else {
        h
    };
    let tier = rows - level;
    let crest = h == level;
    let shoulder = left < level || right < level;
    if h >= level {
        if crest && shoulder {
            if tier == 0 {
                ('▀', true)
            } else if tier == 1 {
                ('▆', true)
            } else {
                ('▅', true)
            }
        } else if crest {
            ('▇', true)
        } else if shoulder && tier <= 1 {
            ('▇', true)
        } else {
            ('█', true)
        }
    } else if h + 1 == level && (left >= level || right >= level) {
        (if tier <= 1 {
            '▪'
        } else {
            '·'
        }, false)
    } else if level == 1 && index % 6 == 0 {
        ('·', false)
    } else {
        (' ', false)
    }
}

pub fn spectrum_glyph(heights: &Vec<usize>, index: usize, level: usize, rows: usize) -> (r: (char, bool))
    requires
        index < heights.len(),
        1 <= level <= rows,
    ensures
        r == spectrum_glyph_spec(heights@, index as int, level, rows),
{
    let h = heights[index];
    let left = if index > 0 {
        heights[index - 1]
    } else {
        h
    };
    let right = if index + 1 < heights.len() {
        heights[index + 1]
    } else {
        h
    };
    let tier = rows - level;
    let crest = h == level;
    let shoulder = left < level || right < level;
    if h >= level {
        if crest && shoulder {
            if tier == 0 {
                ('▀', true)
            } else if tier == 1 {
                ('▆', true)
            } else {
                ('▅', true)
            }
        } else if crest {
            ('▇', true)
        } else if shoulder && tier <= 1 {
            ('▇', true)
        } else {
            ('█', true)
        }
    } else if h + 1 == level && (left >= level || right >= level) {
        (if tier <= 1 {
            '▪'
        } else {
            '·'
        }, false)
    } else if level == 1 && index % 6 == 0 {
        ('·', false)
    } else {
        (' ', false)
    }
}

// ---------------------------------------------------------------------------
// Laws

/// The bands of each re-entry layout fill the deck's height exactly.
pub proof fn law_layout_bands_fill_height(h: u16)
    ensures
        queue_layout_spec(h) matches Some((a, b, c, d)) ==> a + b + c + d == h && a >= 5,
        guide_layout_spec(h) matches Some((a, b, c, d, e)) ==> a + b + c + d + e == h && a >= 7,
        20 <= h < 26 <==> queue_layout_spec(h) is Some,
        26 <= h < 31 <==> guide_layout_spec(h) is Some,
{
}

/// Fitting never grows the text past the limit, keeps text that fits, and
/// otherwise keeps as much of the start as leaves room for the ellipsis.
pub proof fn law_fit_text(t: Seq<char>, max: nat)
    ensures
        fit_spec(t, max).len() <= max,
        t.len() <= max && max > 0 ==> fit_spec(t, max) == t,
        t.len() > max && max > 0 ==> fit_spec(t, max).len() == max && fit_spec(t, max).last()
            == crate::text::ellipsis() && fit_spec(t, max).take(max - 1) == t.take(max - 1),
{
    if t.len() > max && max > 0 {
        assert(fit_spec(t, max).take(max - 1) =~= t.take(max - 1));
    }
}

/// Every row is counted once, as a folder or as a file.
pub proof fn law_counts_cover_rows(s: Seq<EntryView>)
    ensures
        count_dirs(s) + count_files(s) == s.len(),
{
    lemma_counts_add_up(s);
}


} // verus!
