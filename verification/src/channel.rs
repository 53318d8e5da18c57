//! The two channel ends the user interface holds: the one commands go out
//! on and the one the engine's reports come in on, each with a record of
//! what went through it.
use crate::audio_engine::{AudioCommand, CommandModel, EngineEvent, EventModel};
use std::sync::mpsc::{Receiver, SendError, Sender};
use vstd::prelude::*;

verus! {

#[verifier::external_type_specification]
#[verifier::external_body]
#[verifier::reject_recursive_types(T)]
pub struct ExSender<T>(Sender<T>);

#[verifier::external_type_specification]
#[verifier::external_body]
#[verifier::reject_recursive_types(T)]
pub struct ExReceiver<T>(Receiver<T>);

#[verifier::external_type_specification]
#[verifier::external_body]
#[verifier::reject_recursive_types(T)]
pub struct ExSendError<T>(SendError<T>);

/// The sending end of the command channel: every command handed to it,
/// each with the text of the error the send gave (none when the channel took
/// it), and the commands the channel took.
pub struct CommandLink {
    tx: Sender<AudioCommand>,
    attempts: Ghost<Seq<(CommandModel, Option<Seq<char>>)>>,
    delivered: Ghost<Seq<CommandModel>>,
}

impl CommandLink {
    /// Every command handed to the channel through this end, oldest first,
    /// with the send's error text when it failed.
    pub closed spec fn attempts(&self) -> Seq<(CommandModel, Option<Seq<char>>)> {
        self.attempts@
    }

    /// Every command the channel accepted through this end, oldest first.
    pub closed spec fn delivered(&self) -> Seq<CommandModel> {
        self.delivered@
    }

    pub fn new(tx: Sender<AudioCommand>) -> (l: CommandLink)
        ensures
            l.attempts() == Seq::<(CommandModel, Option<Seq<char>>)>::empty(),
            l.delivered() == Seq::<CommandModel>::empty(),
    {
        CommandLink { tx, attempts: Ghost(Seq::empty()), delivered: Ghost(Seq::empty()) }
    }
}

/// The error text a send's outcome records: none for a success.
pub open spec fn outcome_text(r: Result<(), String>) -> Option<Seq<char>> {
    match r {
        Ok(()) => None,
        Err(t) => Some(t@),
    }
}

/// `Sender::send`, with a failure given as its error's `Display` text: the
/// channel takes `command` unless its receiving end is gone. Every command
/// is recorded as handed over with that outcome, and as delivered exactly
/// when the send succeeds.
#[verifier::external_body]
pub(crate) fn send_command(link: &mut CommandLink, command: AudioCommand) -> (r: Result<(), String>)
    ensures
        final(link).attempts() == old(link).attempts().push((command@, outcome_text(r))),
        r is Ok ==> final(link).delivered() == old(link).delivered().push(command@),
        r is Err ==> final(link).delivered() == old(link).delivered(),
{
    match link.tx.send(command) {
        Ok(()) => Ok(()),
        Err(error) => Err(error.to_string()),
    }
}

/// The receiving end of the report channel, the reports taken from it, and
/// whether the last look found nothing waiting.
pub struct EventLink {
    rx: Receiver<EngineEvent>,
    received: Ghost<Seq<EventModel>>,
    found_nothing: Ghost<bool>,
}

impl EventLink {
    /// Every report taken from the channel through this end, oldest first.
    pub closed spec fn received(&self) -> Seq<EventModel> {
        self.received@
    }

    /// The last look at the channel found no report waiting.
    pub closed spec fn found_nothing(&self) -> bool {
        self.found_nothing@
    }

    pub fn new(rx: Receiver<EngineEvent>) -> (l: EventLink)
        ensures
            l.received() == Seq::<EventModel>::empty(),
    {
        EventLink { rx, received: Ghost(Seq::empty()), found_nothing: Ghost(false) }
    }
}

/// `Receiver::try_recv`: the oldest report waiting, which is then recorded
/// as received; `None` when none is waiting or the engine has gone. Which
/// report comes depends on the engine thread.
#[verifier::external_body]
pub(crate) fn try_receive(link: &mut EventLink) -> (r: Option<EngineEvent>)
    ensures
        match r {
            Some(e) => final(link).received() == old(link).received().push(e@) && !final(link).found_nothing(),
            None => final(link).received() == old(link).received() && final(link).found_nothing(),
        },
{
    match link.rx.try_recv() {
        Ok(event) => Some(event),
        Err(_) => None,
    }
}

} // verus!
