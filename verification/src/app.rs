//! The application state behind the screen: the browser, the last player
//! state the engine reported, which lane has focus, the status line, and what
//! each key press does.
//!
//! Commands travel to the engine over a channel and its reports come back
//! over another. A key press that opens or closes folders leaves a refresh
//! due: the caller then reads the disk and hands the snapshot to `refresh`.
use crate::audio_engine::{texts, AudioCommand, CommandModel, EngineEvent, PlayerModel, PlayerState};
use crate::browser::{
    audio_selection, collapse_model, expand_model, moved_down, moved_up, refreshed, selected_row,
    toggle_model, BrowserError, BrowserErrorView, BrowserModel, DiskSnapshot, EntryKind,
    FileBrowser,
};
use crate::channel::{send_command, try_receive, CommandLink, EventLink};
use std::sync::mpsc::{Receiver, Sender};
use vstd::prelude::*;

verus! {

#[derive(Debug, Clone, Copy, PartialEq, Eq, Structural)]
pub enum FocusPane {
    Browser,
    Player,
}

/// The keys the application reacts to; everything else is `Other`.
#[derive(Debug, Clone, Copy, PartialEq, Eq, Structural)]
pub enum KeyCode {
    Char(char),
    Tab,
    Enter,
    Left,
    Right,
    Up,
    Down,
    Esc,
    Other,
}

/// A key event: the key, whether Control was held, and whether it is a
/// press (rather than a repeat or a release).
#[derive(Debug, Clone, Copy, PartialEq, Eq, Structural)]
pub struct KeyInput {
    pub code: KeyCode,
    pub control: bool,
    pub press: bool,
}

impl KeyInput {
    /// A plain press of `code`.
    pub fn press(code: KeyCode) -> (k: KeyInput)
        ensures
            k == (KeyInput { code, control: false, press: true }),
    {
        KeyInput { code, control: false, press: true }
    }
}

/// Volume step of the j/k and +/- keys, in percentage points.
pub const VOLUME_STEP: i32 = 5;

/// Seek step of the h/l keys, in seconds.
pub const SEEK_STEP: i64 = 5;

pub open spec fn initial_status() -> Seq<char> {
    "Library lane ready · Enter loads · Tab swaps lanes · n/p step the stack · q quits"@
}

pub open spec fn browser_status() -> Seq<char> {
    "Library lane active · j/k browse · Enter loads or opens"@
}

pub open spec fn player_status() -> Seq<char> {
    "Playback deck active · j/k trims volume · Space toggles transport"@
}

pub open spec fn playing_status() -> Seq<char> {
    "Playing selection · Space pause/resume · h/l seek · n/p next/prev"@
}

pub open spec fn disconnected_prefix() -> Seq<char> {
    "audio engine disconnected: "@
}

pub struct App {
    browser: FileBrowser,
    player: PlayerState,
    focus: FocusPane,
    status_line: String,
    commands: CommandLink,
    events: EventLink,
    should_quit: bool,
}

pub struct AppModel {
    pub browser: BrowserModel,
    pub player: PlayerModel,
    pub focus: FocusPane,
    pub status_line: Seq<char>,
    pub should_quit: bool,
}

impl View for App {
    type V = AppModel;

    closed spec fn view(&self) -> AppModel {
        AppModel {
            browser: self.browser@,
            player: self.player@,
            focus: self.focus,
            status_line: self.status_line@,
            should_quit: self.should_quit,
        }
    }
}

/// What a key press does: the new state, the commands the engine's channel
/// took (none when the engine had hung up),
/// and whether the browser's rows must be re-read.
pub struct KeyReaction {
    pub state: AppModel,
    pub commands: Seq<CommandModel>,
    /// The command handed to the channel, if any.
    pub attempted: Option<CommandModel>,
    pub refresh_due: bool,
}

/// Handing a command over: when the engine has hung up (`failure` holds
/// the channel's error text), the status line says so and the app quits.
pub open spec fn after_send(m: AppModel, failure: Option<Seq<char>>) -> AppModel {
    match failure {
        None => m,
        Some(t) => AppModel { status_line: disconnected_prefix() + t, should_quit: true, ..m },
    }
}

/// The commands a send delivers: the command, unless the engine had hung up.
pub open spec fn delivered(c: CommandModel, failure: Option<Seq<char>>) -> Seq<CommandModel> {
    match failure {
        None => seq![c],
        Some(_) => Seq::empty(),
    }
}

pub open spec fn sending(m: AppModel, c: CommandModel, failure: Option<Seq<char>>) -> KeyReaction {
    KeyReaction {
        state: after_send(m, failure),
        commands: delivered(c, failure),
        attempted: Some(c),
        refresh_due: false,
    }
}

/// The hand-over a key reaction records: its command, if it sent one, with
/// the send's error text when it failed.
pub open spec fn hand_over(x: KeyReaction, failure: Option<Seq<char>>) -> Seq<(CommandModel, Option<Seq<char>>)> {
    match x.attempted {
        Some(c) => seq![(c, failure)],
        None => Seq::empty(),
    }
}

pub open spec fn quiet(m: AppModel) -> KeyReaction {
    KeyReaction { state: m, commands: Seq::empty(), attempted: None, refresh_due: false }
}

pub open spec fn with_browser(m: AppModel, b: (BrowserModel, bool)) -> KeyReaction {
    KeyReaction {
        state: AppModel { browser: b.0, ..m },
        commands: Seq::empty(),
        attempted: None,
        refresh_due: b.1,
    }
}

pub open spec fn load_command(sel: (Seq<char>, Seq<Seq<char>>, usize)) -> CommandModel {
    CommandModel::LoadAndPlay { path: sel.0, playlist: sel.1, index: sel.2 }
}

/// Loading the selected file with its playlist, then saying so.
pub open spec fn play_selection(
    m: AppModel,
    sel: (Seq<char>, Seq<Seq<char>>, usize),
    failure: Option<Seq<char>>,
) -> KeyReaction {
    KeyReaction {
        state: AppModel { status_line: playing_status(), ..after_send(m, failure) },
        commands: delivered(load_command(sel), failure),
        attempted: Some(load_command(sel)),
        refresh_due: false,
    }
}

/// Space: start the selected file when nothing is loaded, else pause/resume.
pub open spec fn space_reaction(m: AppModel, failure: Option<Seq<char>>) -> KeyReaction {
    if m.player.current_track is None && audio_selection(m.browser) is Some {
        play_selection(m, audio_selection(m.browser)->0, failure)
    } else {
        sending(m, CommandModel::TogglePause, failure)
    }
}

/// Enter: open or close the selected folder, or play the selected file.
pub open spec fn enter_reaction(m: AppModel, failure: Option<Seq<char>>) -> KeyReaction {
    match selected_row(m.browser) {
        None => quiet(m),
        Some(e) => if e.kind == EntryKind::Directory {
            with_browser(m, toggle_model(m.browser))
        } else {
            match audio_selection(m.browser) {
                Some(sel) => play_selection(m, sel, failure),
                None => quiet(m),
            }
        },
    }
}

pub open spec fn tabbed(m: AppModel) -> AppModel {
    match m.focus {
        FocusPane::Browser => AppModel {
            focus: FocusPane::Player,
            status_line: player_status(),
            ..m
        },
        FocusPane::Player => AppModel {
            focus: FocusPane::Browser,
            status_line: browser_status(),
            ..m
        },
    }
}

/// The whole key map.
pub open spec fn key_reaction(m: AppModel, key: KeyInput, failure: Option<Seq<char>>) -> KeyReaction {
    if !key.press {
        quiet(m)
    } else {
        match key.code {
            KeyCode::Esc => quiet(AppModel { should_quit: true, ..m }),
            KeyCode::Char(c) => if c == 'q' {
                quiet(AppModel { should_quit: true, ..m })
            } else if c == 'c' && key.control {
                quiet(AppModel { should_quit: true, ..m })
            } else if c == 'j' {
                match m.focus {
                    FocusPane::Browser => quiet(AppModel { browser: moved_down(m.browser), ..m }),
                    FocusPane::Player => sending(m, CommandModel::AdjustVolume((-VOLUME_STEP) as i32), failure),
                }
            } else if c == 'k' {
                match m.focus {
                    FocusPane::Browser => quiet(AppModel { browser: moved_up(m.browser), ..m }),
                    FocusPane::Player => sending(m, CommandModel::AdjustVolume(VOLUME_STEP), failure),
                }
            } else if c == ' ' {
                space_reaction(m, failure)
            } else if c == 's' {
                sending(m, CommandModel::Stop, failure)
            } else if c == 'n' {
                sending(m, CommandModel::Next, failure)
            } else if c == 'p' {
                sending(m, CommandModel::Previous, failure)
            } else if c == 'h' {
                sending(m, CommandModel::SeekBy((-SEEK_STEP) as i64), failure)
            } else if c == 'l' {
                sending(m, CommandModel::SeekBy(SEEK_STEP), failure)
            } else if c == '+' || c == '=' {
                sending(m, CommandModel::AdjustVolume(VOLUME_STEP), failure)
            } else if c == '-' {
                sending(m, CommandModel::AdjustVolume((-VOLUME_STEP) as i32), failure)
            } else {
                quiet(m)
            },
            KeyCode::Tab => quiet(tabbed(m)),
            KeyCode::Enter => enter_reaction(m, failure),
            KeyCode::Left => with_browser(m, collapse_model(m.browser)),
            KeyCode::Right => with_browser(m, expand_model(m.browser)),
            KeyCode::Up => quiet(AppModel { browser: moved_up(m.browser), ..m }),
            KeyCode::Down => quiet(AppModel { browser: moved_down(m.browser), ..m }),
            KeyCode::Other => quiet(m),
        }
    }
}

/// Taking in a report from the engine: a new player state replaces the
/// old; an error message becomes the status line.
pub open spec fn absorb(m: AppModel, e: crate::audio_engine::EventModel) -> AppModel {
    match e {
        crate::audio_engine::EventModel::StateUpdated(p) => AppModel { player: p, ..m },
        crate::audio_engine::EventModel::Error(t) => AppModel { status_line: t, ..m },
    }
}

/// Taking in reports one after another.
pub open spec fn absorb_all(m: AppModel, es: Seq<crate::audio_engine::EventModel>) -> AppModel
    decreases es.len(),
{
    if es.len() == 0 {
        m
    } else {
        absorb(absorb_all(m, es.drop_last()), es.last())
    }
}

impl App {
    /// The browser's selection is on a row and no folder is open twice.
    pub open spec fn wf(&self) -> bool {
        crate::browser::browser_wf(self@.browser)
    }

    /// Every command handed to the engine's channel so far, oldest first.
    pub closed spec fn commands_sent(&self) -> Seq<CommandModel> {
        self.commands.delivered()
    }

    /// Every command handed to the engine's channel, oldest first, with the
    /// send's error text when it failed.
    pub closed spec fn commands_handed(&self) -> Seq<(CommandModel, Option<Seq<char>>)> {
        self.commands.attempts()
    }

    /// Every report taken in from the engine so far, oldest first.
    pub closed spec fn reports_received(&self) -> Seq<crate::audio_engine::EventModel> {
        self.events.received()
    }

    /// The last look for reports found none waiting.
    pub closed spec fn reports_drained(&self) -> bool {
        self.events.found_nothing()
    }

    /// Opens the browser at `root` read from `disk`, with a fresh player
    /// state, the library lane focused and the greeting as status line.
    pub fn new(
        root: String,
        disk: &DiskSnapshot,
        command_tx: Sender<AudioCommand>,
        event_rx: Receiver<EngineEvent>,
    ) -> (r: Result<App, BrowserError>)
        ensures
            ({
                let (b, out) = refreshed(crate::browser::fresh_model(root@), disk@);
                match r {
                    Ok(app) => out is Ok && app.wf() && app@ == (AppModel {
                        browser: b,
                        player: crate::audio_engine::initial_model(),
                        focus: FocusPane::Browser,
                        status_line: initial_status(),
                        should_quit: false,
                    }) && app.commands_sent() == Seq::<CommandModel>::empty()
                        && app.commands_handed() == Seq::<(CommandModel, Option<Seq<char>>)>::empty()
                        && app.reports_received() == Seq::<crate::audio_engine::EventModel>::empty(),
                    Err(e) => out == Err::<(), BrowserErrorView>(e@),
                }
            }),
    {
        let browser = match FileBrowser::new(root, disk) {
            Ok(b) => b,
            Err(e) => {
                return Err(e);
            },
        };
        let status_line = crate::text::owned(
            "Library lane ready · Enter loads · Tab swaps lanes · n/p step the stack · q quits",
        );
        Ok(
            App {
                browser,
                player: PlayerState::default(),
                focus: FocusPane::Browser,
                status_line,
                commands: CommandLink::new(command_tx),
                events: EventLink::new(event_rx),
                should_quit: false,
            },
        )
    }

    pub fn browser(&self) -> (b: &FileBrowser)
        ensures
            b@ == self@.browser,
            self.wf() ==> b.wf(),
    {
        &self.browser
    }

    pub fn player(&self) -> (p: &PlayerState)
        ensures
            p@ == self@.player,
    {
        &self.player
    }

    pub fn focus(&self) -> (f: FocusPane)
        ensures
            f == self@.focus,
    {
        self.focus
    }

    pub fn status_line(&self) -> (s: &str)
        ensures
            s@ == self@.status_line,
    {
        self.status_line.as_str()
    }

    pub fn should_quit(&self) -> (q: bool)
        ensures
            q == self@.should_quit,
    {
        self.should_quit
    }

    /// Asks the engine to shut down. The request is delivered unless the
    /// engine has already gone; nothing else changes either way.
    pub fn shutdown(&mut self)
        requires
            old(self).wf(),
        ensures
            final(self).wf(),
            final(self)@ == old(self)@,
            final(self).reports_received() == old(self).reports_received(),
            final(self).commands_handed().len() == old(self).commands_handed().len() + 1,
            final(self).commands_handed().drop_last() == old(self).commands_handed(),
            final(self).commands_handed().last().0 == CommandModel::Shutdown,
            final(self).commands_sent() == old(self).commands_sent() + delivered(
                CommandModel::Shutdown,
                final(self).commands_handed().last().1,
            ),
    {
        let _ = send_command(&mut self.commands, AudioCommand::Shutdown);
        assert(self.commands.attempts().drop_last() =~= old(self).commands.attempts());
    }

    /// Applies one report from the engine.
    pub fn apply_engine_event(&mut self, event: EngineEvent)
        requires
            old(self).wf(),
        ensures
            final(self).wf(),
            final(self)@ == absorb(old(self)@, event@),
            final(self).commands_sent() == old(self).commands_sent(),
            final(self).commands_handed() == old(self).commands_handed(),
            final(self).reports_received() == old(self).reports_received(),
            final(self).reports_drained() == old(self).reports_drained(),
    {
        match event {
            EngineEvent::StateUpdated(player_state) => {
                self.player = player_state;
            },
            EngineEvent::Error(message) => {
                self.status_line = message;
            },
        }
    }

    /// Takes in every report waiting from the engine, oldest first. Nothing
    /// is stated of how many there were: that depends on the engine thread.
    pub fn drain_engine_events(&mut self)
        requires
            old(self).wf(),
        ensures
            final(self).wf(),
            final(self).commands_sent() == old(self).commands_sent(),
            final(self).commands_handed() == old(self).commands_handed(),
            old(self).reports_received().len() <= final(self).reports_received().len(),
            final(self).reports_received().take(old(self).reports_received().len() as int)
                == old(self).reports_received(),
            final(self)@ == absorb_all(
                old(self)@,
                final(self).reports_received().skip(old(self).reports_received().len() as int),
            ),
            final(self).reports_received().len() - old(self).reports_received().len() < usize::MAX
                ==> final(self).reports_drained(),
    {
        let ghost start = self@;
        let ghost before = self.events.received();
        let mut count: usize = 0;
        assert(self.events.received().skip(before.len() as int) =~= Seq::<crate::audio_engine::EventModel>::empty());
        while count < usize::MAX
            invariant_except_break
                self.wf(),
                self.commands_sent() == old(self).commands_sent(),
                self.commands_handed() == old(self).commands_handed(),
                start == old(self)@,
                before == old(self).reports_received(),
                self.events.received().len() == before.len() + count,
                self.events.received().take(before.len() as int) == before,
                self@ == absorb_all(start, self.events.received().skip(before.len() as int)),
            ensures
                self.wf(),
                self.commands_sent() == old(self).commands_sent(),
                self.commands_handed() == old(self).commands_handed(),
                self.events.received().len() >= before.len(),
                self.events.received().take(before.len() as int) == before,
                self@ == absorb_all(start, self.events.received().skip(before.len() as int)),
                self.events.received().len() - before.len() < usize::MAX ==> self.events.found_nothing(),
            decreases usize::MAX - count,
        {
            let ghost seen = self.events.received();
            match try_receive(&mut self.events) {
                Some(event) => {
                    let ghost e = event@;
                    self.apply_engine_event(event);
                    proof {
                        let now = self.events.received();
                        assert(now =~= seen.push(e));
                        assert(now.skip(before.len() as int).drop_last() =~= seen.skip(before.len() as int));
                        assert(now.take(before.len() as int) =~= seen.take(before.len() as int));
                    }
                },
                None => {
                    break;
                },
            }
            count = count + 1;
        }
    }

    /// Re-reads the browser's rows from `disk` after a key left a refresh due.
    pub fn refresh(&mut self, disk: &DiskSnapshot) -> (r: Result<(), BrowserError>)
        requires
            old(self).wf(),
        ensures
            final(self).wf(),
            final(self).commands_sent() == old(self).commands_sent(),
            final(self).commands_handed() == old(self).commands_handed(),
            ({
                let (b, out) = refreshed(old(self)@.browser, disk@);
                &&& final(self)@ == (AppModel { browser: b, ..old(self)@ })
                &&& crate::browser::error_view(r) == out
            }),
    {
        self.browser.refresh(disk)
    }

    fn send(&mut self, command: AudioCommand) -> (failure: Ghost<Option<Seq<char>>>)
        requires
            old(self).wf(),
        ensures
            final(self).wf(),
            final(self)@ == after_send(old(self)@, failure@),
            final(self).commands_sent() == old(self).commands_sent() + delivered(command@, failure@),
            final(self).commands_handed() == old(self).commands_handed().push((command@, failure@)),
            final(self).reports_received() == old(self).reports_received(),
    {
        let ghost c = command@;
        let outcome = send_command(&mut self.commands, command);
        match outcome {
            Ok(()) => Ghost(None),
            Err(text) => {
                let mut line = crate::text::owned("audio engine disconnected: ");
                line.append(text.as_str());
                self.status_line = line;
                self.should_quit = true;
                Ghost(Some(text@))
            },
        }
    }

    fn play_selected(&mut self, path: String, playlist: Vec<String>, index: usize) -> (failure: Ghost<
        Option<Seq<char>>,
    >)
        requires
            old(self).wf(),
        ensures
            final(self).wf(),
            final(self).reports_received() == old(self).reports_received(),
            ({
                let x = play_selection(old(self)@, (path@, texts(playlist@), index), failure@);
                &&& final(self)@ == x.state
                &&& final(self).commands.delivered() == old(self).commands.delivered() + x.commands
                &&& final(self).commands.attempts() == old(self).commands.attempts() + hand_over(x, failure@)
            }),
    {
        let ghost c = load_command((path@, texts(playlist@), index));
        let failure = self.send(AudioCommand::LoadAndPlay { path, playlist, index });
        assert(self.commands.delivered() =~= old(self).commands.delivered() + delivered(c, failure@));
        self.status_line = crate::text::owned(
            "Playing selection · Space pause/resume · h/l seek · n/p next/prev",
        );
        failure
    }

    /// Reacts to a key press; true when the browser's rows must now be
    /// re-read with `refresh`.
    pub fn on_key(&mut self, key: KeyInput) -> (refresh_due: bool)
        requires
            old(self).wf(),
        ensures
            final(self).wf(),
            exists|failure: Option<Seq<char>>|
                {
                    let x = #[trigger] key_reaction(old(self)@, key, failure);
                    &&& final(self)@ == x.state
                    &&& final(self).commands_sent() == old(self).commands_sent() + x.commands
                    &&& final(self).commands_handed() == old(self).commands_handed() + hand_over(x, failure)
                    &&& refresh_due == x.refresh_due
                },
            final(self).reports_received() == old(self).reports_received(),
    {
        let ghost m = self@;
        let ghost log = self.commands.delivered();
        if !key.press {
            assert(self.commands.delivered() =~= log + Seq::<CommandModel>::empty());
            assert(key_reaction(m, key, None).state == self@);
            return false;
        }
        let mut refresh_due = false;
        let mut failure: Ghost<Option<Seq<char>>> = Ghost(None);
        match key.code {
            KeyCode::Esc => {
                self.should_quit = true;
            },
            KeyCode::Char(c) => {
                if c == 'q' {
                    self.should_quit = true;
                } else if c == 'c' && key.control {
                    self.should_quit = true;
                } else if c == 'j' {
                    match self.focus {
                        FocusPane::Browser => self.browser.move_down(),
                        FocusPane::Player => {
                            failure = self.send(AudioCommand::AdjustVolume(-VOLUME_STEP));
                        },
                    }
                } else if c == 'k' {
                    match self.focus {
                        FocusPane::Browser => self.browser.move_up(),
                        FocusPane::Player => {
                            failure = self.send(AudioCommand::AdjustVolume(VOLUME_STEP));
                        },
                    }
                } else if c == ' ' {
                    failure = self.toggle_pause_or_play_selected();
                } else if c == 's' {
                    failure = self.send(AudioCommand::Stop);
                } else if c == 'n' {
                    failure = self.send(AudioCommand::Next);
                } else if c == 'p' {
                    failure = self.send(AudioCommand::Previous);
                } else if c == 'h' {
                    failure = self.send(AudioCommand::SeekBy(-SEEK_STEP));
                } else if c == 'l' {
                    failure = self.send(AudioCommand::SeekBy(SEEK_STEP));
                } else if c == '+' || c == '=' {
                    failure = self.send(AudioCommand::AdjustVolume(VOLUME_STEP));
                } else if c == '-' {
                    failure = self.send(AudioCommand::AdjustVolume(-VOLUME_STEP));
                }
            },
            KeyCode::Tab => {
                match self.focus {
                    FocusPane::Browser => {
                        self.focus = FocusPane::Player;
                        self.status_line = crate::text::owned(
                            "Playback deck active · j/k trims volume · Space toggles transport",
                        );
                    },
                    FocusPane::Player => {
                        self.focus = FocusPane::Browser;
                        self.status_line = crate::text::owned(
                            "Library lane active · j/k browse · Enter loads or opens",
                        );
                    },
                }
            },
            KeyCode::Enter => {
                let (due, f) = self.activate_selected();
                refresh_due = due;
                failure = f;
            },
            KeyCode::Left => {
                refresh_due = self.browser.collapse_selected_directory_or_parent();
            },
            KeyCode::Right => {
                refresh_due = self.browser.expand_selected_directory();
            },
            KeyCode::Up => self.browser.move_up(),
            KeyCode::Down => self.browser.move_down(),
            KeyCode::Other => {},
        }
        proof {
            let x = key_reaction(m, key, failure@);
            assert(self@ == x.state);
            assert(self.commands.delivered() =~= log + x.commands);
            assert(refresh_due == x.refresh_due);
        }
        refresh_due
    }

    fn toggle_pause_or_play_selected(&mut self) -> (failure: Ghost<Option<Seq<char>>>)
        requires
            old(self).wf(),
        ensures
            final(self).wf(),
            final(self).reports_received() == old(self).reports_received(),
            ({
                let x = space_reaction(old(self)@, failure@);
                &&& final(self)@ == x.state
                &&& final(self).commands.delivered() == old(self).commands.delivered() + x.commands
                &&& final(self).commands.attempts() == old(self).commands.attempts() + hand_over(x, failure@)
            }),
    {
        if self.player.current_track.is_none() {
            match self.browser.selected_audio_selection() {
                Some((path, playlist, index)) => {
                    return self.play_selected(path, playlist, index);
                },
                None => {},
            }
        }
        let failure = self.send(AudioCommand::TogglePause);
        assert(self.commands.delivered() =~= old(self).commands.delivered() + delivered(CommandModel::TogglePause, failure@));
        failure
    }

    fn activate_selected(&mut self) -> (out: (bool, Ghost<Option<Seq<char>>>))
        requires
            old(self).wf(),
        ensures
            final(self).wf(),
            final(self).reports_received() == old(self).reports_received(),
            ({
                let x = enter_reaction(old(self)@, out.1@);
                &&& final(self)@ == x.state
                &&& final(self).commands.delivered() == old(self).commands.delivered() + x.commands
                &&& final(self).commands.attempts() == old(self).commands.attempts() + hand_over(x, out.1@)
                &&& out.0 == x.refresh_due
            }),
    {
        let kind = match self.browser.selected_entry() {
            Some(entry) => entry.kind,
            None => {
                assert(self.commands.delivered() =~= old(self).commands.delivered() + Seq::<CommandModel>::empty());
                return (false, Ghost(None));
            },
        };
        match kind {
            EntryKind::Directory => {
                let due = self.browser.toggle_selected_directory();
                assert(self.commands.delivered() =~= old(self).commands.delivered() + Seq::<CommandModel>::empty());
                (due, Ghost(None))
            },
            EntryKind::File => {
                match self.browser.selected_audio_selection() {
                    Some((path, playlist, index)) => {
                        let failure = self.play_selected(path, playlist, index);
                        (false, failure)
                    },
                    None => {
                        assert(self.commands.delivered() =~= old(self).commands.delivered() + Seq::<CommandModel>::empty());
                        (false, Ghost(None))
                    },
                }
            },
        }
    }
}

// ---------------------------------------------------------------------------
// Laws

/// Tab moves focus to the other lane and says which lane is active; twice
/// brings the focus back.
pub proof fn law_tab_swaps_lanes(m: AppModel, f1: Option<Seq<char>>, f2: Option<Seq<char>>)
    ensures
        ({
            let once = key_reaction(m, KeyInput { code: KeyCode::Tab, control: false, press: true }, f1);
            let twice = key_reaction(
                once.state,
                KeyInput { code: KeyCode::Tab, control: false, press: true },
                f2,
            );
            &&& once.state.focus != m.focus
            &&& once.state.status_line == (if once.state.focus == FocusPane::Player {
                player_status()
            } else {
                browser_status()
            })
            &&& twice.state.focus == m.focus
            &&& once.commands.len() == 0 && twice.commands.len() == 0
        }),
{
}

/// q, Esc and Ctrl-C quit without talking to the engine.
pub proof fn law_quit_keys(m: AppModel, control: bool, failure: Option<Seq<char>>)
    ensures
        key_reaction(m, KeyInput { code: KeyCode::Char('q'), control, press: true }, failure).state.should_quit,
        key_reaction(m, KeyInput { code: KeyCode::Esc, control, press: true }, failure).state.should_quit,
        key_reaction(m, KeyInput { code: KeyCode::Char('c'), control: true, press: true }, failure).state.should_quit,
        key_reaction(m, KeyInput { code: KeyCode::Char('q'), control, press: true }, failure).commands.len() == 0,
{
}

/// Key releases and repeats change nothing.
pub proof fn law_only_presses_count(m: AppModel, code: KeyCode, control: bool, failure: Option<Seq<char>>)
    ensures
        key_reaction(m, KeyInput { code, control, press: false }, failure) == quiet(m),
{
}

/// Space starts the selected file, with the whole playlist, when nothing is
/// loaded; otherwise it pauses or resumes.
pub proof fn law_space_starts_selection_or_toggles(m: AppModel, failure: Option<Seq<char>>)
    ensures
        ({
            let x = key_reaction(m, KeyInput { code: KeyCode::Char(' '), control: false, press: true }, failure);
            if m.player.current_track is None && audio_selection(m.browser) is Some {
                let sel = audio_selection(m.browser)->0;
                &&& x.commands == delivered(CommandModel::LoadAndPlay { path: sel.0, playlist: sel.1, index: sel.2 }, failure)
                &&& x.state.status_line == playing_status()
            } else {
                x.commands == delivered(CommandModel::TogglePause, failure)
            }
        }),
{
}

/// With the playback deck focused, j and k turn the volume down and up.
pub proof fn law_deck_keys_trim_volume(m: AppModel, failure: Option<Seq<char>>)
    requires
        m.focus == FocusPane::Player,
    ensures
        key_reaction(m, KeyInput { code: KeyCode::Char('j'), control: false, press: true }, failure).commands
            == delivered(CommandModel::AdjustVolume(-5i32), failure),
        key_reaction(m, KeyInput { code: KeyCode::Char('k'), control: false, press: true }, failure).commands
            == delivered(CommandModel::AdjustVolume(5i32), failure),
{
}

/// A command the engine can no longer take ends the app with a message.
pub proof fn law_lost_engine_quits(m: AppModel, t: Seq<char>)
    ensures
        key_reaction(m, KeyInput { code: KeyCode::Char('s'), control: false, press: true }, Some(t)).state.should_quit,
        key_reaction(m, KeyInput { code: KeyCode::Char('s'), control: false, press: true }, Some(t)).state.status_line
            == disconnected_prefix() + t,
{
}

/// h and l seek back and forward by five seconds; n, p and s step the queue
/// and stop, whichever lane has the focus.
pub proof fn law_transport_keys(m: AppModel, failure: Option<Seq<char>>)
    ensures
        key_reaction(m, KeyInput { code: KeyCode::Char('h'), control: false, press: true }, failure).commands
            == delivered(CommandModel::SeekBy(-5i64), failure),
        key_reaction(m, KeyInput { code: KeyCode::Char('l'), control: false, press: true }, failure).commands
            == delivered(CommandModel::SeekBy(5i64), failure),
        key_reaction(m, KeyInput { code: KeyCode::Char('n'), control: false, press: true }, failure).commands
            == delivered(CommandModel::Next, failure),
        key_reaction(m, KeyInput { code: KeyCode::Char('p'), control: false, press: true }, failure).commands
            == delivered(CommandModel::Previous, failure),
        key_reaction(m, KeyInput { code: KeyCode::Char('s'), control: false, press: true }, failure).commands
            == delivered(CommandModel::Stop, failure),
{
}

/// In the library lane j and k move the selection; Enter opens or closes a
/// selected folder; the arrows fold folders; none of these talks to the engine.
pub proof fn law_library_keys(m: AppModel, failure: Option<Seq<char>>)
    requires
        m.focus == FocusPane::Browser,
    ensures
        key_reaction(m, KeyInput { code: KeyCode::Char('j'), control: false, press: true }, failure).state.browser
            == moved_down(m.browser),
        key_reaction(m, KeyInput { code: KeyCode::Char('k'), control: false, press: true }, failure).state.browser
            == moved_up(m.browser),
        selected_row(m.browser) matches Some(e) && e.kind == EntryKind::Directory ==> {
            let x = key_reaction(m, KeyInput { code: KeyCode::Enter, control: false, press: true }, failure);
            &&& (x.state.browser, x.refresh_due) == toggle_model(m.browser)
            &&& x.commands.len() == 0
        },
        ({
            let x = key_reaction(m, KeyInput { code: KeyCode::Left, control: false, press: true }, failure);
            (x.state.browser, x.refresh_due) == collapse_model(m.browser) && x.commands.len() == 0
        }),
        ({
            let x = key_reaction(m, KeyInput { code: KeyCode::Right, control: false, press: true }, failure);
            (x.state.browser, x.refresh_due) == expand_model(m.browser) && x.commands.len() == 0
        }),
{
}

/// The library selection after a step up or down: one row up unless at the
/// top, one row down unless at the bottom.
pub open spec fn stepped_selection(b: BrowserModel, down: bool) -> BrowserModel {
    BrowserModel {
        selected: if down && b.selected + 1 < b.entries.len() {
            (b.selected + 1) as usize
        } else if !down && b.selected > 0 {
            (b.selected - 1) as usize
        } else {
            b.selected
        },
        ..b
    }
}

/// Up and Down move the library selection one row in either lane (and j/k
/// in the library lane), stopping at the ends; nothing else changes and
/// nothing is sent.
pub proof fn law_arrows_step_the_selection(m: AppModel, failure: Option<Seq<char>>)
    requires
        crate::browser::browser_wf(m.browser),
    ensures
        ({
            let up = key_reaction(m, KeyInput { code: KeyCode::Up, control: false, press: true }, failure);
            let down = key_reaction(m, KeyInput { code: KeyCode::Down, control: false, press: true }, failure);
            &&& up.state == AppModel { browser: stepped_selection(m.browser, false), ..m }
            &&& down.state == AppModel { browser: stepped_selection(m.browser, true), ..m }
            &&& up.attempted is None && down.attempted is None
            &&& up.commands.len() == 0 && down.commands.len() == 0
        }),
        m.focus == FocusPane::Browser ==> {
            let k = key_reaction(m, KeyInput { code: KeyCode::Char('k'), control: false, press: true }, failure);
            let j = key_reaction(m, KeyInput { code: KeyCode::Char('j'), control: false, press: true }, failure);
            &&& k.state == AppModel { browser: stepped_selection(m.browser, false), ..m }
            &&& j.state == AppModel { browser: stepped_selection(m.browser, true), ..m }
            &&& k.attempted is None && j.attempted is None
        },
{
}

/// A file's place on a playlist: where it first occurs.
pub open spec fn first_place(playlist: Seq<Seq<char>>, path: Seq<char>, index: usize) -> bool {
    &&& index < playlist.len()
    &&& playlist[index as int] == path
    &&& forall|k: int| 0 <= k < index ==> playlist[k] != path
}

/// Enter on a selected file that is on the library playlist sends the file
/// to the engine with the whole playlist as the queue, starting at the
/// file's place on it; Space does the same while nothing is loaded.
pub proof fn law_play_selected_file_in_place(m: AppModel, failure: Option<Seq<char>>)
    requires
        m.browser.selected < m.browser.entries.len(),
        m.browser.entries[m.browser.selected as int].kind == EntryKind::File,
        m.browser.playlist.contains(m.browser.entries[m.browser.selected as int].path),
        m.browser.playlist.len() <= usize::MAX,
    ensures
        ({
            let e = m.browser.entries[m.browser.selected as int];
            let enter = key_reaction(m, KeyInput { code: KeyCode::Enter, control: false, press: true }, failure);
            &&& enter.attempted matches Some(CommandModel::LoadAndPlay { path, playlist, index })
                && path == e.path && playlist == m.browser.playlist && first_place(playlist, path, index)
            &&& enter.refresh_due == false
        }),
        m.player.current_track is None ==> {
            let e = m.browser.entries[m.browser.selected as int];
            let space = key_reaction(m, KeyInput { code: KeyCode::Char(' '), control: false, press: true }, failure);
            space.attempted matches Some(CommandModel::LoadAndPlay { path, playlist, index })
                && path == e.path && playlist == m.browser.playlist && first_place(playlist, path, index)
        },
{
    let e = m.browser.entries[m.browser.selected as int];
    crate::browser::lemma_first_index(m.browser.playlist, e.path, 0);
    crate::browser::lemma_first_index_contains(m.browser.playlist, e.path);
    let j = crate::browser::first_index(m.browser.playlist, e.path, 0)->0;
    assert((j as usize) as nat == j);
    assert(audio_selection(m.browser) == Some((e.path, m.browser.playlist, j as usize)));
}

} // verus!
