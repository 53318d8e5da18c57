//! The playback engine: player state, the commands that drive it, and the
//! controller that turns each command into calls on a playback backend and
//! a new state.
//!
//! Units: positions and durations are whole milliseconds; the volume is a
//! percentage (100 is unity gain) kept within 0..=200.
use crate::paths::{display_name, display_name_spec, opt_view};
use vstd::prelude::*;

verus! {

/// Volume a fresh player starts with, in percent.
pub const DEFAULT_VOLUME: u32 = 80;

/// Loudest volume the engine accepts, in percent.
pub const MAX_VOLUME: u32 = 200;

/// From this far into a track, "previous" restarts it instead of stepping back.
pub const RESTART_THRESHOLD_MS: u64 = 3000;

#[derive(Debug, Clone, Copy, PartialEq, Eq, Structural)]
pub enum PlaybackStatus {
    Stopped,
    Playing,
    Paused,
}

/// A loaded track: where it lives and the title shown for it.
#[derive(Debug, PartialEq, Eq)]
pub struct Track {
    pub path: String,
    pub title: String,
}

pub struct TrackView {
    pub path: Seq<char>,
    pub title: Seq<char>,
}

impl View for Track {
    type V = TrackView;

    open spec fn view(&self) -> TrackView {
        TrackView { path: self.path@, title: self.title@ }
    }
}

impl Clone for Track {
    fn clone(&self) -> (r: Self)
        ensures
            r@ == self@,
    {
        Track { path: self.path.clone(), title: self.title.clone() }
    }
}

/// The track loaded from `path`: titled by the path's final component.
pub open spec fn track_at(path: Seq<char>) -> TrackView {
    TrackView { path, title: display_name_spec(path) }
}

impl Track {
    pub fn from_path(path: &str) -> (t: Track)
        ensures
            t@ == track_at(path@),
    {
        Track { path: crate::text::owned(path), title: display_name(path) }
    }
}

/// Everything the engine reports about playback.
#[derive(Debug)]
pub struct PlayerState {
    pub status: PlaybackStatus,
    pub current_track: Option<Track>,
    /// Percent; 100 is unity gain.
    pub volume: u32,
    /// Milliseconds into the current track.
    pub position: u64,
    /// Length of the current track in milliseconds, when known.
    pub duration: Option<u64>,
    pub queue: Vec<String>,
    pub queue_index: Option<usize>,
    pub last_error: Option<String>,
}

pub struct PlayerModel {
    pub status: PlaybackStatus,
    pub current_track: Option<TrackView>,
    pub volume: u32,
    pub position: u64,
    pub duration: Option<u64>,
    pub queue: Seq<Seq<char>>,
    pub queue_index: Option<usize>,
    pub last_error: Option<Seq<char>>,
}

/// The texts of a sequence of strings.
pub open spec fn texts(v: Seq<String>) -> Seq<Seq<char>> {
    v.map_values(|s: String| s@)
}

pub open spec fn track_view(t: Option<Track>) -> Option<TrackView> {
    match t {
        Some(t) => Some(t@),
        None => None,
    }
}

impl View for PlayerState {
    type V = PlayerModel;

    open spec fn view(&self) -> PlayerModel {
        PlayerModel {
            status: self.status,
            current_track: track_view(self.current_track),
            volume: self.volume,
            position: self.position,
            duration: self.duration,
            queue: texts(self.queue@),
            queue_index: self.queue_index,
            last_error: opt_view(self.last_error),
        }
    }
}

/// The state before anything was loaded.
pub open spec fn initial_model() -> PlayerModel {
    PlayerModel {
        status: PlaybackStatus::Stopped,
        current_track: None,
        volume: DEFAULT_VOLUME,
        position: 0,
        duration: None,
        queue: Seq::empty(),
        queue_index: None,
        last_error: None,
    }
}

pub fn clone_texts(v: &Vec<String>) -> (r: Vec<String>)
    ensures
        r@ == v@,
{
    let r = v.clone();
    assert(r@ =~= v@);
    r
}

pub fn clone_opt_text(o: &Option<String>) -> (r: Option<String>)
    ensures
        r == *o,
{
    match o {
        Some(s) => Some(s.clone()),
        None => None,
    }
}

impl Clone for PlayerState {
    fn clone(&self) -> (r: Self)
        ensures
            r@ == self@,
    {
        let current_track = match &self.current_track {
            Some(t) => Some(t.clone()),
            None => None,
        };
        PlayerState {
            status: self.status,
            current_track,
            volume: self.volume,
            position: self.position,
            duration: self.duration,
            queue: clone_texts(&self.queue),
            queue_index: self.queue_index,
            last_error: clone_opt_text(&self.last_error),
        }
    }
}

impl Default for PlayerState {
    fn default() -> (r: Self)
        ensures
            r@ == initial_model(),
    {
        let r = PlayerState {
            status: PlaybackStatus::Stopped,
            current_track: None,
            volume: DEFAULT_VOLUME,
            position: 0,
            duration: None,
            queue: Vec::new(),
            queue_index: None,
            last_error: None,
        };
        assert(r@.queue =~= Seq::<Seq<char>>::empty());
        r
    }
}

/// What the user can ask of the engine.
#[derive(Debug, Clone)]
pub enum AudioCommand {
    LoadAndPlay { path: String, playlist: Vec<String>, index: usize },
    TogglePause,
    Stop,
    Next,
    Previous,
    /// Seconds, forward when positive.
    SeekBy(i64),
    /// Percentage points added to the volume.
    AdjustVolume(i32),
    Shutdown,
}

pub enum CommandModel {
    LoadAndPlay { path: Seq<char>, playlist: Seq<Seq<char>>, index: usize },
    TogglePause,
    Stop,
    Next,
    Previous,
    SeekBy(i64),
    AdjustVolume(i32),
    Shutdown,
}

impl View for AudioCommand {
    type V = CommandModel;

    open spec fn view(&self) -> CommandModel {
        match self {
            AudioCommand::LoadAndPlay { path, playlist, index } => CommandModel::LoadAndPlay {
                path: path@,
                playlist: texts(playlist@),
                index: *index,
            },
            AudioCommand::TogglePause => CommandModel::TogglePause,
            AudioCommand::Stop => CommandModel::Stop,
            AudioCommand::Next => CommandModel::Next,
            AudioCommand::Previous => CommandModel::Previous,
            AudioCommand::SeekBy(s) => CommandModel::SeekBy(*s),
            AudioCommand::AdjustVolume(d) => CommandModel::AdjustVolume(*d),
            AudioCommand::Shutdown => CommandModel::Shutdown,
        }
    }
}

/// What the engine tells the user interface.
#[derive(Debug, Clone)]
pub enum EngineEvent {
    StateUpdated(PlayerState),
    Error(String),
}

pub enum EventModel {
    StateUpdated(PlayerModel),
    Error(Seq<char>),
}

impl View for EngineEvent {
    type V = EventModel;

    open spec fn view(&self) -> EventModel {
        match self {
            EngineEvent::StateUpdated(s) => EventModel::StateUpdated(s@),
            EngineEvent::Error(m) => EventModel::Error(m@),
        }
    }
}

pub open spec fn events_view(v: Seq<EngineEvent>) -> Seq<EventModel> {
    v.map_values(|e: EngineEvent| e@)
}

/// A failure reported by a playback backend.
#[derive(Debug, Clone)]
pub enum AudioError {
    Backend(String),
}

impl View for AudioError {
    type V = Seq<char>;

    open spec fn view(&self) -> Seq<char> {
        match self {
            AudioError::Backend(m) => m@,
        }
    }
}

impl AudioError {
    /// The text the error is shown with.
    pub fn message(&self) -> (r: String)
        ensures
            r@ == self@,
    {
        match self {
            AudioError::Backend(m) => m.clone(),
        }
    }
}

pub open spec fn unit_view(r: Result<(), AudioError>) -> Result<(), Seq<char>> {
    match r {
        Ok(()) => Ok(()),
        Err(e) => Err(e@),
    }
}

pub open spec fn load_view(r: Result<Option<u64>, AudioError>) -> Result<Option<u64>, Seq<char>> {
    match r {
        Ok(d) => Ok(d),
        Err(e) => Err(e@),
    }
}

/// Where sound is made; users of the library implement it. Every request an implementation gets is recorded, with the
/// answer it gave, in `exchanges`, and the two readings it offers are named
/// by `reported_position` and `reported_finished`. Nothing else is assumed
/// of an implementation: every answer is taken as it comes.
pub trait PlaybackBackend {
    /// Every request made of this backend so far, with its answer, oldest
    /// first.
    spec fn exchanges(&self) -> BackendLog;

    /// What `position` answers in this state.
    spec fn reported_position(&self) -> u64;

    /// What `track_finished` answers in this state.
    spec fn reported_finished(&self) -> bool;

    /// Starts `path` at `start_at` ms with `volume` percent, paused or not;
    /// answers the track's length in ms when known.
    fn load(&mut self, path: &str, start_at: u64, volume: u32, paused: bool) -> (r: Result<
        Option<u64>,
        AudioError,
    >)
        ensures
            final(self).exchanges() == old(self).exchanges().push(
                Exchange {
                    call: BackendCall::Load { path: path@, start_at, volume, paused },
                    answer: BackendAnswer::Loaded(load_view(r)),
                },
            ),
    ;

    fn play(&mut self) -> (r: Result<(), AudioError>)
        ensures
            final(self).exchanges() == old(self).exchanges().push(
                Exchange { call: BackendCall::Play, answer: BackendAnswer::Done(unit_view(r)) },
            ),
    ;

    fn pause(&mut self) -> (r: Result<(), AudioError>)
        ensures
            final(self).exchanges() == old(self).exchanges().push(
                Exchange { call: BackendCall::Pause, answer: BackendAnswer::Done(unit_view(r)) },
            ),
    ;

    fn stop(&mut self) -> (r: Result<(), AudioError>)
        ensures
            final(self).exchanges() == old(self).exchanges().push(
                Exchange { call: BackendCall::Stop, answer: BackendAnswer::Done(unit_view(r)) },
            ),
    ;

    fn set_volume(&mut self, volume: u32) -> (r: Result<(), AudioError>)
        ensures
            final(self).exchanges() == old(self).exchanges().push(
                Exchange { call: BackendCall::SetVolume(volume), answer: BackendAnswer::Done(unit_view(r)) },
            ),
    ;

    /// Milliseconds into the current track.
    fn position(&self) -> (p: u64)
        ensures
            p == self.reported_position(),
    ;

    fn track_finished(&self) -> (f: bool)
        ensures
            f == self.reported_finished(),
    ;
}

/// A request the controller makes of its backend.
pub enum BackendCall {
    Load { path: Seq<char>, start_at: u64, volume: u32, paused: bool },
    Play,
    Pause,
    Stop,
    SetVolume(u32),
}

/// What a backend answered to one request: a load's outcome, or the outcome
/// of a play, pause, stop or volume request.
pub enum BackendAnswer {
    Loaded(Result<Option<u64>, Seq<char>>),
    Done(Result<(), Seq<char>>),
}

/// One request made of a backend and the answer it gave.
pub struct Exchange {
    pub call: BackendCall,
    pub answer: BackendAnswer,
}

/// A backend's record of the requests it got, with their answers.
pub type BackendLog = Seq<Exchange>;

/// The requests of a backend log.
pub open spec fn calls_of(log: Seq<Exchange>) -> Seq<BackendCall> {
    log.map_values(|e: Exchange| e.call)
}

/// The answer `r` records for `call`.
pub open spec fn answer_for(call: BackendCall, r: BackendReply) -> BackendAnswer {
    match call {
        BackendCall::Load { .. } => BackendAnswer::Loaded(r.load),
        _ => BackendAnswer::Done(r.control),
    }
}

/// The requests `calls`, each with the answer `r` records for it.
pub open spec fn exchanges_for(calls: Seq<BackendCall>, r: BackendReply) -> Seq<Exchange> {
    calls.map_values(|c: BackendCall| Exchange { call: c, answer: answer_for(c, r) })
}

/// The answers a backend gave during one command or tick: the outcome of a
/// load, the outcome of a play/pause/stop/volume request, the position read
/// while deciding (`probe`), the position read once done (`settle`), and
/// whether the track had run out.
pub struct BackendReply {
    pub load: Result<Option<u64>, Seq<char>>,
    pub control: Result<(), Seq<char>>,
    pub probe: u64,
    pub settle: u64,
    pub finished: bool,
}

/// A state change: the state after, the outcome, and the backend requests made.
pub struct Step {
    pub state: PlayerModel,
    pub outcome: Result<(), Seq<char>>,
    pub calls: Seq<BackendCall>,
}

pub open spec fn unchanged(s: PlayerModel, outcome: Result<(), Seq<char>>, calls: Seq<BackendCall>) -> Step {
    Step { state: s, outcome, calls }
}

/// The queue slot a new playlist starts at: `index`, pulled back into range.
pub open spec fn queue_slot(playlist: Seq<Seq<char>>, index: usize) -> Option<usize> {
    if playlist.len() == 0 {
        None
    } else if index < playlist.len() {
        Some(index)
    } else {
        Some((playlist.len() - 1) as usize)
    }
}

pub open spec fn status_for(paused: bool) -> PlaybackStatus {
    if paused {
        PlaybackStatus::Paused
    } else {
        PlaybackStatus::Playing
    }
}

/// Loading `path` with `playlist` as the new queue.
pub open spec fn load_track_step(
    s: PlayerModel,
    path: Seq<char>,
    playlist: Seq<Seq<char>>,
    index: usize,
    paused: bool,
    r: BackendReply,
) -> Step {
    let calls = seq![BackendCall::Load { path, start_at: 0, volume: s.volume, paused }];
    match r.load {
        Err(e) => unchanged(s, Err(e), calls),
        Ok(d) => Step {
            state: PlayerModel {
                current_track: Some(track_at(path)),
                duration: d,
                position: 0,
                status: status_for(paused),
                queue: playlist,
                queue_index: queue_slot(playlist, index),
                ..s
            },
            outcome: Ok(()),
            calls,
        },
    }
}

/// Reloading the current track from its start.
pub open spec fn restart_step(s: PlayerModel, paused: bool, r: BackendReply) -> Step {
    match s.current_track {
        None => unchanged(s, Ok(()), Seq::empty()),
        Some(t) => {
            let calls = seq![
                BackendCall::Load { path: t.path, start_at: 0, volume: s.volume, paused },
            ];
            match r.load {
                Err(e) => unchanged(s, Err(e), calls),
                Ok(d) => Step {
                    state: PlayerModel { duration: d, position: 0, status: status_for(paused), ..s },
                    outcome: Ok(()),
                    calls,
                },
            }
        },
    }
}

/// Stopping playback.
pub open spec fn stop_step(s: PlayerModel, r: BackendReply) -> Step {
    let calls = seq![BackendCall::Stop];
    match r.control {
        Err(e) => unchanged(s, Err(e), calls),
        Ok(()) => Step {
            state: PlayerModel { status: PlaybackStatus::Stopped, position: 0, ..s },
            outcome: Ok(()),
            calls,
        },
    }
}

/// Pausing a playing track, resuming a paused one, restarting a stopped one.
pub open spec fn toggle_step(s: PlayerModel, r: BackendReply) -> Step {
    match s.status {
        PlaybackStatus::Playing => {
            let calls = seq![BackendCall::Pause];
            match r.control {
                Err(e) => unchanged(s, Err(e), calls),
                Ok(()) => Step {
                    state: PlayerModel { position: r.probe, status: PlaybackStatus::Paused, ..s },
                    outcome: Ok(()),
                    calls,
                },
            }
        },
        PlaybackStatus::Paused => {
            let calls = seq![BackendCall::Play];
            match r.control {
                Err(e) => unchanged(s, Err(e), calls),
                Ok(()) => Step {
                    state: PlayerModel { status: PlaybackStatus::Playing, ..s },
                    outcome: Ok(()),
                    calls,
                },
            }
        },
        PlaybackStatus::Stopped => restart_step(s, false, r),
    }
}

/// The volume `v + delta` held within 0..=MAX_VOLUME.
pub open spec fn clamp_volume(v: int) -> u32 {
    if v < 0 {
        0
    } else if v > MAX_VOLUME {
        MAX_VOLUME
    } else {
        v as u32
    }
}

/// Changing the volume by `delta` points.
pub open spec fn volume_step(s: PlayerModel, delta: i32, r: BackendReply) -> Step {
    let v = clamp_volume(s.volume + delta);
    let calls = seq![BackendCall::SetVolume(v)];
    Step { state: PlayerModel { volume: v, ..s }, outcome: r.control, calls }
}

/// `x` held within the range of `u64`.
pub open spec fn clamp_u64(x: int) -> u64 {
    if x < 0 {
        0
    } else if x > u64::MAX {
        u64::MAX
    } else {
        x as u64
    }
}

/// The target of a seek by `seconds` from `current` ms: never before the
/// start and never past the track's end when its length is known.
pub open spec fn seek_target(current: u64, seconds: i64, duration: Option<u64>) -> u64 {
    let shifted = clamp_u64(current + seconds * 1000);
    match duration {
        Some(d) => if shifted <= d {
            shifted
        } else {
            d
        },
        None => shifted,
    }
}

/// Seeking by `seconds` within the current track.
pub open spec fn seek_step(s: PlayerModel, seconds: i64, r: BackendReply) -> Step {
    if s.status == PlaybackStatus::Stopped {
        unchanged(s, Ok(()), Seq::empty())
    } else {
        match s.current_track {
            None => unchanged(s, Ok(()), Seq::empty()),
            Some(t) => {
                let target = seek_target(r.probe, seconds, s.duration);
                let paused = s.status == PlaybackStatus::Paused;
                let calls = seq![
                    BackendCall::Load { path: t.path, start_at: target, volume: s.volume, paused },
                ];
                match r.load {
                    Err(e) => unchanged(s, Err(e), calls),
                    Ok(d) => Step {
                        state: PlayerModel { position: target, duration: d, ..s },
                        outcome: Ok(()),
                        calls,
                    },
                }
            },
        }
    }
}

/// Moving `offset` places through the queue: stopping when that runs past
/// the end, doing nothing when there is no queue position or it would go
/// before the start.
pub open spec fn advance_step(s: PlayerModel, offset: isize, r: BackendReply) -> Step {
    match s.queue_index {
        None => unchanged(s, Ok(()), Seq::empty()),
        Some(ci) => {
            let next = ci + offset;
            if next < 0 || next > usize::MAX {
                unchanged(s, Ok(()), Seq::empty())
            } else if next >= s.queue.len() {
                stop_step(s, r)
            } else {
                let path = s.queue[next];
                let calls = seq![
                    BackendCall::Load { path, start_at: 0, volume: s.volume, paused: false },
                ];
                match r.load {
                    Err(e) => unchanged(s, Err(e), calls),
                    Ok(d) => Step {
                        state: PlayerModel {
                            current_track: Some(track_at(path)),
                            duration: d,
                            position: 0,
                            status: PlaybackStatus::Playing,
                            queue_index: Some(next as usize),
                            ..s
                        },
                        outcome: Ok(()),
                        calls,
                    },
                }
            }
        },
    }
}

/// "Previous": restart the track once it has played for a while, else step back.
pub open spec fn previous_step(s: PlayerModel, r: BackendReply) -> Step {
    if r.probe >= RESTART_THRESHOLD_MS {
        restart_step(s, s.status == PlaybackStatus::Paused, r)
    } else {
        advance_step(s, -1isize, r)
    }
}

/// The state change a command makes, given the backend's answers.
pub open spec fn command_step(s: PlayerModel, cmd: CommandModel, r: BackendReply) -> Step {
    match cmd {
        CommandModel::LoadAndPlay { path, playlist, index } => load_track_step(
            s,
            path,
            playlist,
            index,
            false,
            r,
        ),
        CommandModel::TogglePause => toggle_step(s, r),
        CommandModel::Stop => stop_step(s, r),
        CommandModel::Next => advance_step(s, 1, r),
        CommandModel::Previous => previous_step(s, r),
        CommandModel::SeekBy(secs) => seek_step(s, secs, r),
        CommandModel::AdjustVolume(d) => volume_step(s, d, r),
        CommandModel::Shutdown => unchanged(s, Ok(()), Seq::empty()),
    }
}

/// What the engine does and reports after a command: the step, then the
/// position read back, then the outcome recorded as the last error and
/// reported as events.
pub struct Reaction {
    pub state: PlayerModel,
    pub events: Seq<EventModel>,
    pub calls: Seq<BackendCall>,
}

/// Reporting a finished step: success clears the last error and reports the
/// state; failure records the message and reports it before the state.
pub open spec fn report(st: Step) -> Reaction {
    match st.outcome {
        Ok(()) => {
            let s = PlayerModel { last_error: None, ..st.state };
            Reaction { state: s, events: seq![EventModel::StateUpdated(s)], calls: st.calls }
        },
        Err(e) => {
            let s = PlayerModel { last_error: Some(e), ..st.state };
            Reaction {
                state: s,
                events: seq![EventModel::Error(e), EventModel::StateUpdated(s)],
                calls: st.calls,
            }
        },
    }
}

pub open spec fn command_reaction(s: PlayerModel, cmd: CommandModel, r: BackendReply) -> Reaction {
    let st = command_step(s, cmd, r);
    report(Step { state: PlayerModel { position: r.settle, ..st.state }, ..st })
}

/// A periodic tick: read the position; when a playing track has run out,
/// move on through the queue; report whenever anything changed.
pub open spec fn tick_reaction(s: PlayerModel, r: BackendReply) -> Reaction {
    let s1 = PlayerModel { position: r.settle, ..s };
    if s1.status == PlaybackStatus::Playing && r.finished {
        let st = advance_step(s1, 1, r);
        match st.outcome {
            Ok(()) => if st.state.status == PlaybackStatus::Playing || st.state.position
                != s.position {
                Reaction {
                    state: st.state,
                    events: seq![EventModel::StateUpdated(st.state)],
                    calls: st.calls,
                }
            } else {
                Reaction { state: st.state, events: Seq::empty(), calls: st.calls }
            },
            Err(e) => {
                let s2 = PlayerModel { last_error: Some(e), ..st.state };
                Reaction {
                    state: s2,
                    events: seq![EventModel::Error(e), EventModel::StateUpdated(s2)],
                    calls: st.calls,
                }
            },
        }
    } else if s1.position != s.position {
        Reaction { state: s1, events: seq![EventModel::StateUpdated(s1)], calls: Seq::empty() }
    } else {
        Reaction { state: s1, events: Seq::empty(), calls: Seq::empty() }
    }
}

/// `after` and `events` are what `x` says, and the backend's log grew by
/// `x.calls`, each answered as `r` records.
pub open spec fn follows(
    x: Reaction,
    r: BackendReply,
    after: PlayerModel,
    events: Seq<EngineEvent>,
    log_before: Seq<Exchange>,
    log_after: Seq<Exchange>,
) -> bool {
    &&& after == x.state
    &&& events_view(events) == x.events
    &&& log_after == log_before + exchanges_for(x.calls, r)
}

/// The seek target in ms; see `seek_target`.
pub fn clamp_seek_target(current_position: u64, seconds: i64, track_duration: Option<u64>) -> (t:
    u64)
    ensures
        t == seek_target(current_position, seconds, track_duration),
{
    let shifted: u64 = if seconds < 0 {
        let magnitude: u64 = ((-(seconds + 1)) as u64) + 1;
        match magnitude.checked_mul(1000) {
            Some(ms) => current_position.saturating_sub(ms),
            None => 0,
        }
    } else {
        match (seconds as u64).checked_mul(1000) {
            Some(ms) => current_position.saturating_add(ms),
            None => u64::MAX,
        }
    };
    match track_duration {
        Some(duration) => if shifted <= duration {
            shifted
        } else {
            duration
        },
        None => shifted,
    }
}

/// A playback position reported for a track: never past the track's end
/// when its length is known.
pub open spec fn clamped_position(position: u64, duration: Option<u64>) -> u64 {
    match duration {
        Some(d) => if position <= d {
            position
        } else {
            d
        },
        None => position,
    }
}

pub fn clamp_position(position: u64, duration: Option<u64>) -> (r: u64)
    ensures
        r == clamped_position(position, duration),
{
    match duration {
        Some(d) => if position <= d {
            position
        } else {
            d
        },
        None => position,
    }
}

/// What the engine's loop received: a command, nothing before its tick
/// came due, or word that the user interface has gone.
pub enum EngineInput {
    Command(AudioCommand),
    Timeout,
    Disconnected,
}

/// What the engine's loop does next: send these reports and wait again, or
/// end.
pub enum EngineFlow {
    Continue(Vec<EngineEvent>),
    Finish,
}

/// Drives a backend from commands and ticks, keeping the player state.
pub struct EngineController<B> {
    pub backend: B,
    pub state: PlayerState,
}

impl<B: PlaybackBackend> EngineController<B> {
    /// Every request made of the backend so far, with its answer, oldest first.
    pub open spec fn issued(&self) -> Seq<Exchange> {
        self.backend.exchanges()
    }

    /// What the backend's position reading answers now.
    pub open spec fn backend_position(&self) -> u64 {
        self.backend.reported_position()
    }
}

/// The readings behind a command's reply: the position read once done is
/// `after`; the position read while deciding is `after` for a pause toggle
/// (read once the backend paused) and `before` otherwise.
pub open spec fn command_readings(cmd: CommandModel, r: BackendReply, before: u64, after: u64) -> bool {
    &&& r.settle == after
    &&& r.probe == (if cmd is TogglePause {
        after
    } else {
        before
    })
}

/// The readings behind a tick's reply: the position read first, and whether
/// the track had run out, asked only of a playing deck.
pub open spec fn tick_readings(s: PlayerModel, r: BackendReply, position: u64, finished: bool) -> bool {
    &&& r.settle == position
    &&& (s.status == PlaybackStatus::Playing ==> r.finished == finished)
}

impl<B: PlaybackBackend> EngineController<B> {
    /// A controller with the default state, which first sets the backend's
    /// volume to the default.
    pub fn new(backend: B) -> (c: Self)
        ensures
            c.state@ == initial_model(),
            calls_of(c.issued()) == calls_of(backend.exchanges()).push(BackendCall::SetVolume(DEFAULT_VOLUME)),
    {
        let mut backend = backend;
        let state = PlayerState::default();
        let ghost log = backend.exchanges();
        let _ = backend.set_volume(state.volume);
        assert(calls_of(backend.exchanges()) =~= calls_of(log).push(BackendCall::SetVolume(DEFAULT_VOLUME)));
        EngineController { backend, state }
    }

    /// A copy of the current state.
    pub fn snapshot(&self) -> (s: PlayerState)
        ensures
            s@ == self.state@,
    {
        self.state.clone()
    }

    /// Carries out `command`, reads the position back, and reports the
    /// outcome: the state, preceded by the error when the backend failed.
    pub fn handle_command(&mut self, command: AudioCommand) -> (events: Vec<EngineEvent>)
        ensures
            exists|r: BackendReply|
                follows(
                    #[trigger] command_reaction(old(self).state@, command@, r),
                    r,
                    final(self).state@,
                    events@,
                    old(self).issued(),
                    final(self).issued(),
                ) && command_readings(command@, r, old(self).backend_position(), final(self).backend_position()),
    {
        let ghost before = self.state@;
        let ghost cmd = command@;
        let ghost p0 = self.backend.reported_position();
        let (result, Ghost(r)) = match command {
            AudioCommand::LoadAndPlay { path, playlist, index } => self.load_track(
                path.as_str(),
                playlist,
                index,
                false,
            ),
            AudioCommand::TogglePause => self.toggle_pause(),
            AudioCommand::Stop => self.stop(),
            AudioCommand::Next => self.advance_queue(1),
            AudioCommand::Previous => self.previous_track(),
            AudioCommand::SeekBy(seconds) => self.seek_by(seconds),
            AudioCommand::AdjustVolume(delta) => self.adjust_volume(delta),
            AudioCommand::Shutdown => (
                Ok(()),
                Ghost(BackendReply { load: Ok(None), control: Ok(()), probe: p0, settle: 0, finished: false }),
            ),
        };
        let position = self.backend.position();
        self.state.position = position;
        let ghost reply = BackendReply { settle: position, ..r };
        let ghost st = command_step(before, cmd, r);
        assert(command_step(before, cmd, reply) == st);
        assert(exchanges_for(st.calls, reply) =~= exchanges_for(st.calls, r));
        match result {
            Ok(()) => {
                self.state.last_error = None;
                let snapshot = self.snapshot();
                let events = vec![EngineEvent::StateUpdated(snapshot)];
                proof {
                    let x = command_reaction(before, cmd, reply);
                    assert(self.state@.last_error == x.state.last_error);
                    assert(self.state@ == x.state);
                    assert(events_view(events@) =~= x.events);
                    assert(self.issued() == old(self).issued() + exchanges_for(x.calls, reply));
                }
                events
            },
            Err(error) => {
                let message = error.message();
                self.state.last_error = Some(message.clone());
                let snapshot = self.snapshot();
                let events = vec![EngineEvent::Error(message), EngineEvent::StateUpdated(snapshot)];
                proof {
                    let x = command_reaction(before, cmd, reply);
                    assert(self.state@.last_error == x.state.last_error);
                    assert(self.state@ == x.state);
                    assert(events_view(events@) =~= x.events);
                    assert(self.issued() == old(self).issued() + exchanges_for(x.calls, reply));
                }
                events
            },
        }
    }

    /// Reads the position; moves on through the queue when a playing track
    /// has finished; reports when something changed.
    pub fn tick(&mut self) -> (events: Vec<EngineEvent>)
        ensures
            exists|r: BackendReply|
                follows(
                    #[trigger] tick_reaction(old(self).state@, r),
                    r,
                    final(self).state@,
                    events@,
                    old(self).issued(),
                    final(self).issued(),
                ) && tick_readings(
                    old(self).state@,
                    r,
                    old(self).backend.reported_position(),
                    old(self).backend.reported_finished(),
                ),
    {
        let ghost before = self.state@;
        let previous_position = self.state.position;
        let position = self.backend.position();
        self.state.position = position;
        let finished = if self.state.status == PlaybackStatus::Playing {
            self.backend.track_finished()
        } else {
            false
        };
        if self.state.status == PlaybackStatus::Playing && finished {
            let ghost s1 = self.state@;
            let (result, Ghost(r)) = self.advance_queue(1);
            let ghost reply = BackendReply { settle: position, finished: true, ..r };
            assert(advance_step(s1, 1, reply) == advance_step(s1, 1, r));
            assert(exchanges_for(advance_step(s1, 1, r).calls, reply) =~= exchanges_for(
                advance_step(s1, 1, r).calls,
                r,
            ));
            match result {
                Ok(()) => {
                    if self.state.status == PlaybackStatus::Playing {
                        let events = vec![EngineEvent::StateUpdated(self.snapshot())];
                        proof {
                            let x = tick_reaction(before, reply);
                            assert(self.state@ == x.state);
                            assert(events_view(events@) =~= x.events);
                            assert(self.issued() == old(self).issued() + exchanges_for(x.calls, reply));
                        }
                        return events;
                    }
                },
                Err(error) => {
                    let message = error.message();
                    self.state.last_error = Some(message.clone());
                    let events = vec![EngineEvent::Error(message), EngineEvent::StateUpdated(self.snapshot())];
                    proof {
                        let x = tick_reaction(before, reply);
                        assert(self.state@ == x.state);
                        assert(events_view(events@) =~= x.events);
                        assert(self.issued() == old(self).issued() + exchanges_for(x.calls, reply));
                    }
                    return events;
                },
            }
            let events = if self.state.position != previous_position {
                vec![EngineEvent::StateUpdated(self.snapshot())]
            } else {
                Vec::new()
            };
            proof {
                let x = tick_reaction(before, reply);
                assert(self.state@ == x.state);
                assert(events_view(events@) =~= x.events);
                assert(self.issued() == old(self).issued() + exchanges_for(x.calls, reply));
            }
            events
        } else {
            let ghost reply = BackendReply {
                load: Ok(None),
                control: Ok(()),
                probe: 0,
                settle: position,
                finished,
            };
            let events = if self.state.position != previous_position {
                vec![EngineEvent::StateUpdated(self.snapshot())]
            } else {
                Vec::new()
            };
            proof {
                let x = tick_reaction(before, reply);
                assert(self.state@ == x.state);
                assert(events_view(events@) =~= x.events);
                assert(exchanges_for(x.calls, reply) =~= Seq::<Exchange>::empty());
                assert(self.issued() == old(self).issued() + exchanges_for(x.calls, reply));
            }
            events
        }
    }

    /// One turn of the engine's loop: a shutdown or a vanished user
    /// interface ends it and leaves the state alone; a command is carried
    /// out; a quiet tick period runs `tick`.
    pub fn step(&mut self, input: EngineInput) -> (flow: EngineFlow)
        ensures
            match input {
                EngineInput::Command(AudioCommand::Shutdown) | EngineInput::Disconnected => {
                    &&& flow is Finish
                    &&& final(self).state@ == old(self).state@
                    &&& final(self).issued() == old(self).issued()
                },
                EngineInput::Command(c) => flow matches EngineFlow::Continue(events) && exists|
                    r: BackendReply,
                |
                    follows(
                        #[trigger] command_reaction(old(self).state@, c@, r),
                        r,
                        final(self).state@,
                        events@,
                        old(self).issued(),
                        final(self).issued(),
                    ) && command_readings(c@, r, old(self).backend_position(), final(self).backend_position()),
                EngineInput::Timeout => flow matches EngineFlow::Continue(events) && exists|
                    r: BackendReply,
                |
                    follows(
                        #[trigger] tick_reaction(old(self).state@, r),
                        r,
                        final(self).state@,
                        events@,
                        old(self).issued(),
                        final(self).issued(),
                    ) && tick_readings(
                        old(self).state@,
                        r,
                        old(self).backend.reported_position(),
                        old(self).backend.reported_finished(),
                    ),
            },
    {
        match input {
            EngineInput::Command(AudioCommand::Shutdown) => EngineFlow::Finish,
            EngineInput::Disconnected => EngineFlow::Finish,
            EngineInput::Command(command) => EngineFlow::Continue(self.handle_command(command)),
            EngineInput::Timeout => EngineFlow::Continue(self.tick()),
        }
    }

    fn load_track(&mut self, path: &str, playlist: Vec<String>, index: usize, paused: bool) -> (out: (
        Result<(), AudioError>,
        Ghost<BackendReply>,
    ))
        ensures
            ({
                let st = load_track_step(
                    old(self).state@,
                    path@,
                    texts(playlist@),
                    index,
                    paused,
                    out.1@,
                );
                &&& final(self).state@ == st.state
                &&& unit_view(out.0) == st.outcome
                &&& final(self).issued() == old(self).issued() + exchanges_for(st.calls, out.1@)
                &&& out.1@.probe == old(self).backend_position()
            }),
    {
        let ghost p0 = self.backend.reported_position();
        let loaded = self.backend.load(path, 0, self.state.volume, paused);
        let ghost r = BackendReply {
            load: load_view(loaded),
            control: Ok(()),
            probe: p0,
            settle: 0,
            finished: false,
        };
        match loaded {
            Err(e) => (Err(e), Ghost(r)),
            Ok(duration) => {
                let len = playlist.len();
                let queue_index = if len == 0 {
                    None
                } else if index < len {
                    Some(index)
                } else {
                    Some(len - 1)
                };
                self.state.current_track = Some(Track::from_path(path));
                self.state.duration = duration;
                self.state.position = 0;
                self.state.status = if paused {
                    PlaybackStatus::Paused
                } else {
                    PlaybackStatus::Playing
                };
                self.state.queue = playlist;
                self.state.queue_index = queue_index;
                (Ok(()), Ghost(r))
            },
        }
    }

    fn restart_current(&mut self, paused: bool) -> (out: (Result<(), AudioError>, Ghost<BackendReply>))
        ensures
            ({
                let st = restart_step(old(self).state@, paused, out.1@);
                &&& final(self).state@ == st.state
                &&& unit_view(out.0) == st.outcome
                &&& final(self).issued() == old(self).issued() + exchanges_for(st.calls, out.1@)
                &&& out.1@.probe == old(self).backend_position()
            }),
    {
        let ghost nothing = BackendReply {
            load: Ok(None),
            control: Ok(()),
            probe: self.backend.reported_position(),
            settle: 0,
            finished: false,
        };
        let path = match &self.state.current_track {
            Some(track) => track.path.clone(),
            None => {
                assert(self.issued() =~= old(self).issued() + exchanges_for(Seq::<BackendCall>::empty(), nothing));
                return (Ok(()), Ghost(nothing));
            },
        };
        let loaded = self.backend.load(path.as_str(), 0, self.state.volume, paused);
        let ghost r = BackendReply { load: load_view(loaded), ..nothing };
        match loaded {
            Err(e) => (Err(e), Ghost(r)),
            Ok(duration) => {
                self.state.duration = duration;
                self.state.position = 0;
                self.state.status = if paused {
                    PlaybackStatus::Paused
                } else {
                    PlaybackStatus::Playing
                };
                (Ok(()), Ghost(r))
            },
        }
    }

    fn toggle_pause(&mut self) -> (out: (Result<(), AudioError>, Ghost<BackendReply>))
        ensures
            ({
                let st = toggle_step(old(self).state@, out.1@);
                &&& final(self).state@ == st.state
                &&& unit_view(out.0) == st.outcome
                &&& final(self).issued() == old(self).issued() + exchanges_for(st.calls, out.1@)
                &&& out.1@.probe == final(self).backend_position()
            }),
    {
        let (result, Ghost(r)) = match self.state.status {
            PlaybackStatus::Playing => {
                let paused = self.backend.pause();
                let ghost r = BackendReply {
                    load: Ok(None),
                    control: unit_view(paused),
                    probe: 0,
                    settle: 0,
                    finished: false,
                };
                match paused {
                    Err(e) => (Err(e), Ghost(r)),
                    Ok(()) => {
                        let position = self.backend.position();
                        self.state.position = position;
                        self.state.status = PlaybackStatus::Paused;
                        (Ok(()), Ghost(BackendReply { probe: position, ..r }))
                    },
                }
            },
            PlaybackStatus::Paused => {
                let played = self.backend.play();
                let ghost r = BackendReply {
                    load: Ok(None),
                    control: unit_view(played),
                    probe: 0,
                    settle: 0,
                    finished: false,
                };
                match played {
                    Err(e) => (Err(e), Ghost(r)),
                    Ok(()) => {
                        self.state.status = PlaybackStatus::Playing;
                        (Ok(()), Ghost(r))
                    },
                }
            },
            PlaybackStatus::Stopped => self.restart_current(false),
        };
        let ghost reply = BackendReply { probe: self.backend.reported_position(), ..r };
        proof {
            let st = toggle_step(old(self).state@, r);
            assert(old(self).state@.status == PlaybackStatus::Playing && r.control is Ok ==> r.probe == reply.probe);
            assert(toggle_step(old(self).state@, reply) == st);
            assert(exchanges_for(st.calls, reply) =~= exchanges_for(st.calls, r));
        }
        (result, Ghost(reply))
    }

    fn stop(&mut self) -> (out: (Result<(), AudioError>, Ghost<BackendReply>))
        ensures
            ({
                let st = stop_step(old(self).state@, out.1@);
                &&& final(self).state@ == st.state
                &&& unit_view(out.0) == st.outcome
                &&& final(self).issued() == old(self).issued() + exchanges_for(st.calls, out.1@)
                &&& out.1@.probe == old(self).backend_position()
            }),
    {
        let ghost nothing = BackendReply {
            load: Ok(None),
            control: Ok(()),
            probe: self.backend.reported_position(),
            settle: 0,
            finished: false,
        };
        let stopped = self.backend.stop();
        let ghost failed = BackendReply { control: unit_view(stopped), ..nothing };
        match stopped {
            Err(e) => (Err(e), Ghost(failed)),
            Ok(()) => {
                self.state.status = PlaybackStatus::Stopped;
                self.state.position = 0;
                (Ok(()), Ghost(nothing))
            },
        }
    }

    fn adjust_volume(&mut self, delta: i32) -> (out: (Result<(), AudioError>, Ghost<BackendReply>))
        ensures
            ({
                let st = volume_step(old(self).state@, delta, out.1@);
                &&& final(self).state@ == st.state
                &&& unit_view(out.0) == st.outcome
                &&& final(self).issued() == old(self).issued() + exchanges_for(st.calls, out.1@)
                &&& out.1@.probe == old(self).backend_position()
            }),
    {
        let ghost nothing = BackendReply {
            load: Ok(None),
            control: Ok(()),
            probe: self.backend.reported_position(),
            settle: 0,
            finished: false,
        };
        let wanted: i64 = self.state.volume as i64 + delta as i64;
        let volume: u32 = if wanted < 0 {
            0
        } else if wanted > MAX_VOLUME as i64 {
            MAX_VOLUME
        } else {
            wanted as u32
        };
        self.state.volume = volume;
        let set = self.backend.set_volume(volume);
        let ghost r = BackendReply { control: unit_view(set), ..nothing };
        match set {
            Err(e) => (Err(e), Ghost(r)),
            Ok(()) => (Ok(()), Ghost(r)),
        }
    }

    fn seek_by(&mut self, seconds: i64) -> (out: (Result<(), AudioError>, Ghost<BackendReply>))
        ensures
            ({
                let st = seek_step(old(self).state@, seconds, out.1@);
                &&& final(self).state@ == st.state
                &&& unit_view(out.0) == st.outcome
                &&& final(self).issued() == old(self).issued() + exchanges_for(st.calls, out.1@)
                &&& out.1@.probe == old(self).backend_position()
            }),
    {
        let ghost nothing = BackendReply {
            load: Ok(None),
            control: Ok(()),
            probe: self.backend.reported_position(),
            settle: 0,
            finished: false,
        };
        if self.state.status == PlaybackStatus::Stopped {
            assert(self.issued() =~= old(self).issued() + exchanges_for(Seq::<BackendCall>::empty(), nothing));
            return (Ok(()), Ghost(nothing));
        }
        let path = match &self.state.current_track {
            Some(track) => track.path.clone(),
            None => {
                assert(self.issued() =~= old(self).issued() + exchanges_for(Seq::<BackendCall>::empty(), nothing));
                return (Ok(()), Ghost(nothing));
            },
        };
        let current_position = self.backend.position();
        let target = clamp_seek_target(current_position, seconds, self.state.duration);
        let paused = self.state.status == PlaybackStatus::Paused;
        let loaded = self.backend.load(path.as_str(), target, self.state.volume, paused);
        let ghost r = BackendReply { load: load_view(loaded), probe: current_position, ..nothing };
        match loaded {
            Err(e) => (Err(e), Ghost(r)),
            Ok(duration) => {
                self.state.position = target;
                self.state.duration = duration;
                (Ok(()), Ghost(r))
            },
        }
    }

    fn previous_track(&mut self) -> (out: (Result<(), AudioError>, Ghost<BackendReply>))
        ensures
            ({
                let st = previous_step(old(self).state@, out.1@);
                &&& final(self).state@ == st.state
                &&& unit_view(out.0) == st.outcome
                &&& final(self).issued() == old(self).issued() + exchanges_for(st.calls, out.1@)
                &&& out.1@.probe == old(self).backend_position()
            }),
    {
        let position = self.backend.position();
        if position >= RESTART_THRESHOLD_MS {
            let paused = self.state.status == PlaybackStatus::Paused;
            let (result, Ghost(r)) = self.restart_current(paused);
            let ghost reply = BackendReply { probe: position, ..r };
            assert(restart_step(old(self).state@, paused, reply) == restart_step(old(self).state@, paused, r));
            return (result, Ghost(reply));
        }
        let (result, Ghost(r)) = self.advance_queue(-1);
        let ghost reply = BackendReply { probe: position, ..r };
        assert(advance_step(old(self).state@, -1isize, reply) == advance_step(old(self).state@, -1isize, r));
        (result, Ghost(reply))
    }

    fn advance_queue(&mut self, offset: isize) -> (out: (Result<(), AudioError>, Ghost<BackendReply>))
        ensures
            ({
                let st = advance_step(old(self).state@, offset, out.1@);
                &&& final(self).state@ == st.state
                &&& unit_view(out.0) == st.outcome
                &&& final(self).issued() == old(self).issued() + exchanges_for(st.calls, out.1@)
                &&& out.1@.probe == old(self).backend_position()
            }),
    {
        let ghost nothing = BackendReply {
            load: Ok(None),
            control: Ok(()),
            probe: self.backend.reported_position(),
            settle: 0,
            finished: false,
        };
        let current_index = match self.state.queue_index {
            Some(i) => i,
            None => {
                assert(self.issued() =~= old(self).issued() + exchanges_for(Seq::<BackendCall>::empty(), nothing));
                return (Ok(()), Ghost(nothing));
            },
        };
        let next_index = match current_index.checked_add_signed(offset) {
            Some(n) => n,
            None => {
                assert(self.issued() =~= old(self).issued() + exchanges_for(Seq::<BackendCall>::empty(), nothing));
                return (Ok(()), Ghost(nothing));
            },
        };
        if next_index >= self.state.queue.len() {
            return self.stop();
        }
        let next_path = self.state.queue[next_index].clone();
        assert(next_path@ == old(self).state@.queue[next_index as int]);
        let loaded = self.backend.load(next_path.as_str(), 0, self.state.volume, false);
        let ghost r = BackendReply { load: load_view(loaded), ..nothing };
        match loaded {
            Err(e) => (Err(e), Ghost(r)),
            Ok(duration) => {
                self.state.current_track = Some(Track::from_path(next_path.as_str()));
                self.state.duration = duration;
                self.state.position = 0;
                self.state.status = PlaybackStatus::Playing;
                self.state.queue_index = Some(next_index);
                (Ok(()), Ghost(r))
            },
        }
    }
}

// ---------------------------------------------------------------------------
// Laws

/// The queue position, when there is one, names an item of the queue.
pub open spec fn queue_ok(s: PlayerModel) -> bool {
    match s.queue_index {
        Some(i) => i < s.queue.len(),
        None => true,
    }
}

/// Whatever the backend answers, a command or a tick leaves the volume
/// within 0..=MAX_VOLUME when it was there before.
pub proof fn law_volume_stays_in_range(s: PlayerModel, cmd: CommandModel, r: BackendReply)
    requires
        s.volume <= MAX_VOLUME,
    ensures
        command_reaction(s, cmd, r).state.volume <= MAX_VOLUME,
        tick_reaction(s, r).state.volume <= MAX_VOLUME,
{
}

/// Whatever the backend answers, a command or a tick keeps the queue
/// position within the queue.
pub proof fn law_queue_position_stays_in_queue(s: PlayerModel, cmd: CommandModel, r: BackendReply)
    requires
        queue_ok(s),
    ensures
        queue_ok(command_reaction(s, cmd, r).state),
        queue_ok(tick_reaction(s, r).state),
{
}

/// Every command ends its report with the state it left; a failure is
/// reported first and recorded as the last error, a success clears it.
pub proof fn law_outcome_reported(s: PlayerModel, cmd: CommandModel, r: BackendReply)
    ensures
        ({
            let x = command_reaction(s, cmd, r);
            match x.state.last_error {
                Some(e) => x.events == seq![EventModel::Error(e), EventModel::StateUpdated(x.state)],
                None => x.events == seq![EventModel::StateUpdated(x.state)],
            }
        }),
{
}

/// Loading a track with a playlist plays it from the start, makes the
/// playlist the queue, and puts the queue position on `index` pulled back
/// to the last item.
pub proof fn law_load_and_play(
    s: PlayerModel,
    path: Seq<char>,
    playlist: Seq<Seq<char>>,
    index: usize,
    r: BackendReply,
)
    requires
        r.load is Ok,
    ensures
        ({
            let x = command_reaction(s, CommandModel::LoadAndPlay { path, playlist, index }, r);
            &&& x.state.status == PlaybackStatus::Playing
            &&& x.state.current_track == Some(track_at(path))
            &&& x.state.queue == playlist
            &&& x.state.last_error is None
            &&& x.calls == seq![BackendCall::Load { path, start_at: 0, volume: s.volume, paused: false }]
            &&& (playlist.len() > 0 ==> x.state.queue_index == Some(
                if index < playlist.len() {
                    index
                } else {
                    (playlist.len() - 1) as usize
                },
            ))
            &&& (playlist.len() == 0 ==> x.state.queue_index is None)
        }),
{
}

/// Pausing and then resuming a playing track (both accepted by the backend)
/// leaves it playing, with the track and queue as they were.
pub proof fn law_pause_resume_round_trip(s: PlayerModel, r1: BackendReply, r2: BackendReply)
    requires
        s.status == PlaybackStatus::Playing,
        r1.control is Ok,
        r2.control is Ok,
    ensures
        ({
            let mid = command_reaction(s, CommandModel::TogglePause, r1).state;
            let end = command_reaction(mid, CommandModel::TogglePause, r2).state;
            &&& mid.status == PlaybackStatus::Paused
            &&& end.status == PlaybackStatus::Playing
            &&& end.current_track == s.current_track
            &&& end.queue == s.queue
            &&& end.queue_index == s.queue_index
        }),
{
}

/// A seek never lands past the end of a track of known length, and a seek
/// back by at least the elapsed time lands on the start.
pub proof fn law_seek_stays_within_track(current: u64, seconds: i64, duration: Option<u64>)
    ensures
        duration matches Some(d) ==> seek_target(current, seconds, duration) <= d,
        current + seconds * 1000 <= 0 ==> seek_target(current, seconds, duration) == 0,
        (0 <= current + seconds * 1000 <= u64::MAX && (duration matches Some(d) ==> current
            + seconds * 1000 <= d)) ==> seek_target(current, seconds, duration) == current + seconds
            * 1000,
{
}

/// "Next" and then "previous" early in the track (both loads accepted)
/// come back to the same queue item.
pub proof fn law_next_then_previous(s: PlayerModel, r1: BackendReply, r2: BackendReply)
    requires
        queue_ok(s),
        s.queue.len() <= usize::MAX,
        s.queue_index matches Some(i) && i + 1 < s.queue.len(),
        r1.load is Ok,
        r2.load is Ok,
        r2.probe < RESTART_THRESHOLD_MS,
    ensures
        ({
            let mid = command_reaction(s, CommandModel::Next, r1).state;
            let end = command_reaction(mid, CommandModel::Previous, r2).state;
            &&& mid.queue_index == Some((s.queue_index->0 + 1) as usize)
            &&& mid.current_track == Some(track_at(s.queue[s.queue_index->0 + 1]))
            &&& end.queue_index == s.queue_index
            &&& end.current_track == Some(track_at(s.queue[s.queue_index->0 as int]))
            &&& end.status == PlaybackStatus::Playing
        }),
{
    let i = s.queue_index->0;
    let st1 = advance_step(s, 1, r1);
    assert(st1.state.queue_index == Some((i + 1) as usize));
    let mid = command_reaction(s, CommandModel::Next, r1).state;
    assert(mid.queue == s.queue);
    assert(mid.queue_index == Some((i + 1) as usize));
    assert(mid.status == PlaybackStatus::Playing);
    let st2 = advance_step(mid, -1isize, r2);
    assert((i + 1) as usize + (-1isize) == i);
    assert(st2.state.queue_index == Some(i));
}

/// "Previous" after the first seconds of a track reloads that track from
/// its start and keeps the queue position.
pub proof fn law_previous_restarts_started_track(s: PlayerModel, r: BackendReply)
    requires
        s.current_track is Some,
        r.probe >= RESTART_THRESHOLD_MS,
        r.load is Ok,
    ensures
        ({
            let x = command_reaction(s, CommandModel::Previous, r);
            &&& x.state.queue_index == s.queue_index
            &&& x.state.current_track == s.current_track
            &&& x.calls == seq![
                BackendCall::Load {
                    path: s.current_track->0.path,
                    start_at: 0,
                    volume: s.volume,
                    paused: s.status == PlaybackStatus::Paused,
                },
            ]
        }),
{
}

/// "Next" on the last queue item stops playback.
pub proof fn law_next_past_end_stops(s: PlayerModel, r: BackendReply)
    requires
        s.queue_index matches Some(i) && i + 1 >= s.queue.len() && i < usize::MAX,
        r.control is Ok,
    ensures
        command_reaction(s, CommandModel::Next, r).state.status == PlaybackStatus::Stopped,
        command_reaction(s, CommandModel::Next, r).calls == seq![BackendCall::Stop],
{
}

/// Volume changes land within 0..=MAX_VOLUME and move by exactly `delta`
/// when there is room.
pub proof fn law_volume_adjustment_clamps(s: PlayerModel, delta: i32, r: BackendReply)
    ensures
        ({
            let v = command_reaction(s, CommandModel::AdjustVolume(delta), r).state.volume;
            &&& v <= MAX_VOLUME
            &&& (0 <= s.volume + delta <= MAX_VOLUME ==> v == s.volume + delta)
            &&& (s.volume + delta < 0 ==> v == 0)
            &&& (s.volume + delta > MAX_VOLUME ==> v == MAX_VOLUME)
        }),
{
}

/// Space on a stopped deck starts the loaded track again from its start,
/// playing: one load of that track at 0 with the current volume, unpaused.
pub proof fn law_toggle_restarts_stopped_track(s: PlayerModel, r: BackendReply)
    requires
        s.status == PlaybackStatus::Stopped,
        s.current_track is Some,
        r.load is Ok,
    ensures
        ({
            let x = command_reaction(s, CommandModel::TogglePause, r);
            &&& x.state.status == PlaybackStatus::Playing
            &&& x.state.position == r.settle
            &&& x.state.current_track == s.current_track
            &&& x.state.queue == s.queue
            &&& x.state.queue_index == s.queue_index
            &&& x.calls == seq![
                BackendCall::Load {
                    path: s.current_track->0.path,
                    start_at: 0,
                    volume: s.volume,
                    paused: false,
                },
            ]
        }),
{
}

/// A seek on a loaded, playing or paused deck reloads the same track once,
/// paused exactly when the deck was paused, and leaves the deck's status,
/// track and queue as they were; the new position is the load's start.
pub proof fn law_seek_keeps_play_state(s: PlayerModel, seconds: i64, r: BackendReply)
    requires
        s.status != PlaybackStatus::Stopped,
        s.current_track is Some,
        r.load is Ok,
    ensures
        ({
            let st = command_step(s, CommandModel::SeekBy(seconds), r);
            let x = command_reaction(s, CommandModel::SeekBy(seconds), r);
            &&& x.calls.len() == 1
            &&& x.calls[0] matches BackendCall::Load { path, start_at, volume, paused } && path
                == s.current_track->0.path && volume == s.volume && paused == (s.status
                == PlaybackStatus::Paused) && st.state.position == start_at
            &&& x.state.status == s.status
            &&& x.state.current_track == s.current_track
            &&& x.state.queue == s.queue
            &&& x.state.queue_index == s.queue_index
            &&& (s.duration matches Some(d) ==> st.state.position <= d)
            &&& (r.probe + seconds * 1000 <= 0 ==> st.state.position == 0)
            &&& ((0 <= r.probe + seconds * 1000 <= u64::MAX && (s.duration matches Some(d) ==> r.probe
                + seconds * 1000 <= d)) ==> st.state.position == r.probe + seconds * 1000)
        }),
{
}

} // verus!
