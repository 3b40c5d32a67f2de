//! The synchronization engine: a state machine that is told what happened
//! outside and answers with what to do next. It performs no I/O itself, so the
//! caller can hold it locked for the short step and release it before doing
//! what the step asks for.

use crate::extract::TrackIdentifier;
use crate::membership::{listed, MembershipSet};
use crate::message::{ChatMessage, ChatMessageView, Config, RemoteFailure};
use crate::pipeline::{process, process_all, process_message, reconcile};
use vstd::prelude::*;

verus! {

/// Where the engine stands in its life.
#[derive(Clone, Copy, Debug, PartialEq, Eq, Structural)]
pub enum Phase {
    /// Built, not started.
    Uninitialized,
    /// Waiting for the playlist's current members.
    Seeding,
    /// Collecting the channel's history, page by page.
    Backfilling,
    /// Handling messages as they arrive.
    Live,
    /// Done for good.
    Terminated,
}

/// Something that happened outside the engine.
#[derive(Clone, Debug, PartialEq, Eq)]
pub enum Event {
    /// The process has started.
    Start,
    /// One page of the playlist's listing arrived, with the cursor of the page
    /// after it, or `None` when there is none. Each entry carries its
    /// identifier, if it has one.
    Listed { entries: Vec<Option<TrackIdentifier>>, next: Option<u64> },
    /// The playlist could not be listed.
    ListingFailed(RemoteFailure),
    /// One page of the channel's history arrived, newest message first, with
    /// the cursor of the page before it, or `None` when there is none.
    HistoryPage { messages: Vec<ChatMessage>, next: Option<u64> },
    /// A page of the channel's history could not be fetched.
    HistoryFailed(RemoteFailure),
    /// A new message was delivered.
    Message(ChatMessage),
    /// The append of an identifier did not succeed.
    AppendFailed { id: TrackIdentifier, failure: RemoteFailure },
    /// The connection to the chat service is gone for good.
    Shutdown,
}

/// An event as contracts see it.
pub enum EventView {
    Start,
    Listed { entries: Seq<Option<Seq<char>>>, next: Option<u64> },
    ListingFailed(RemoteFailure),
    HistoryPage { messages: Seq<ChatMessageView>, next: Option<u64> },
    HistoryFailed(RemoteFailure),
    Message(ChatMessageView),
    AppendFailed { id: Seq<char>, failure: RemoteFailure },
    Shutdown,
}

impl View for Event {
    type V = EventView;

    open spec fn view(&self) -> EventView {
        match self {
            Event::Start => EventView::Start,
            Event::Listed { entries, next } => EventView::Listed {
                entries: entries.deep_view(),
                next: *next,
            },
            Event::ListingFailed(failure) => EventView::ListingFailed(*failure),
            Event::HistoryPage { messages, next } => EventView::HistoryPage {
                messages: messages.deep_view(),
                next: *next,
            },
            Event::HistoryFailed(failure) => EventView::HistoryFailed(*failure),
            Event::Message(msg) => EventView::Message(msg@),
            Event::AppendFailed { id, failure } => EventView::AppendFailed {
                id: id@,
                failure: *failure,
            },
            Event::Shutdown => EventView::Shutdown,
        }
    }
}

/// What the engine asks its caller to do.
#[derive(Clone, Debug, PartialEq, Eq)]
pub enum Command {
    /// Nothing.
    Idle,
    /// Fetch the page of the playlist's listing at `cursor` (the first page
    /// for `None`) and report `Listed` or `ListingFailed`.
    ListMembership { cursor: Option<u64> },
    /// Fetch the page of history at `cursor` (the newest page for `None`) and
    /// report `HistoryPage` or `HistoryFailed`.
    FetchHistory { cursor: Option<u64> },
    /// Append these identifiers to the playlist, in this order, each once.
    Append(Vec<TrackIdentifier>),
    /// Give up: the engine cannot run.
    Abort(RemoteFailure),
}

/// A command as contracts see it.
pub enum CommandView {
    Idle,
    ListMembership { cursor: Option<u64> },
    FetchHistory { cursor: Option<u64> },
    Append(Seq<Seq<char>>),
    Abort(RemoteFailure),
}

impl View for Command {
    type V = CommandView;

    open spec fn view(&self) -> CommandView {
        match self {
            Command::Idle => CommandView::Idle,
            Command::ListMembership { cursor } => CommandView::ListMembership { cursor: *cursor },
            Command::FetchHistory { cursor } => CommandView::FetchHistory { cursor: *cursor },
            Command::Append(ids) => CommandView::Append(ids.deep_view()),
            Command::Abort(failure) => CommandView::Abort(*failure),
        }
    }
}

/// The engine as contracts see it.
pub struct EngineView {
    /// The channel that is listened to.
    pub channel: u64,
    pub phase: Phase,
    /// The identifiers known to be in the playlist or claimed for it.
    pub members: Set<Seq<char>>,
    /// The history collected so far, newest message first.
    pub backlog: Seq<ChatMessageView>,
}

/// The engine before it is started.
pub open spec fn initial(channel: u64) -> EngineView {
    EngineView {
        channel,
        phase: Phase::Uninitialized,
        members: Set::empty(),
        backlog: Seq::empty(),
    }
}

/// The command that asks for `ids` to be appended, or for nothing when there are none.
pub open spec fn append_command(ids: Seq<Seq<char>>) -> CommandView {
    if ids.len() == 0 {
        CommandView::Idle
    } else {
        CommandView::Append(ids)
    }
}

/// The end of the backfill: the backlog is reconciled oldest message first,
/// and the engine goes live.
pub open spec fn go_live(e: EngineView) -> (EngineView, CommandView) {
    let outcome = process_all(e.members, e.channel, e.backlog.reverse());
    (
        EngineView { phase: Phase::Live, members: outcome.0, backlog: Seq::empty(), ..e },
        append_command(outcome.1),
    )
}

/// The engine's rule: the state that follows an event, and the command that
/// answers it. An event that the current phase has no use for changes nothing
/// and asks for nothing.
pub open spec fn transition(e: EngineView, event: EventView) -> (EngineView, CommandView) {
    match event {
        EventView::Shutdown => (EngineView { phase: Phase::Terminated, ..e }, CommandView::Idle),
        EventView::Start => if e.phase == Phase::Uninitialized {
            (EngineView { phase: Phase::Seeding, ..e }, CommandView::ListMembership { cursor: None })
        } else {
            (e, CommandView::Idle)
        },
        EventView::Listed { entries, next } => if e.phase == Phase::Seeding {
            let seeded = EngineView { members: e.members.union(listed(entries)), ..e };
            match next {
                Some(cursor) => (seeded, CommandView::ListMembership { cursor: Some(cursor) }),
                None => (
                    EngineView { phase: Phase::Backfilling, ..seeded },
                    CommandView::FetchHistory { cursor: None },
                ),
            }
        } else {
            (e, CommandView::Idle)
        },
        EventView::ListingFailed(failure) => if e.phase == Phase::Seeding {
            (EngineView { phase: Phase::Terminated, ..e }, CommandView::Abort(failure))
        } else {
            (e, CommandView::Idle)
        },
        EventView::HistoryPage { messages, next } => if e.phase == Phase::Backfilling {
            let collected = EngineView { backlog: e.backlog + messages, ..e };
            match next {
                Some(cursor) => (collected, CommandView::FetchHistory { cursor: Some(cursor) }),
                None => go_live(collected),
            }
        } else {
            (e, CommandView::Idle)
        },
        EventView::HistoryFailed(_) => if e.phase == Phase::Backfilling {
            go_live(e)
        } else {
            (e, CommandView::Idle)
        },
        EventView::Message(msg) => if e.phase == Phase::Live {
            let outcome = process(e.members, e.channel, msg);
            (
                EngineView { members: outcome.0, ..e },
                match outcome.1 {
                    Some(id) => CommandView::Append(seq![id]),
                    None => CommandView::Idle,
                },
            )
        } else {
            (e, CommandView::Idle)
        },
        EventView::AppendFailed { .. } => (e, CommandView::Idle),
    }
}

/// The synchronization engine.
pub struct Engine {
    config: Config,
    phase: Phase,
    members: MembershipSet,
    backlog: Vec<ChatMessage>,
}

impl View for Engine {
    type V = EngineView;

    closed spec fn view(&self) -> EngineView {
        EngineView {
            channel: self.config.channel_id,
            phase: self.phase,
            members: self.members@,
            backlog: self.backlog.deep_view(),
        }
    }
}

impl Engine {
    /// The configuration that the engine was built with.
    pub closed spec fn configured(&self) -> Config {
        self.config
    }

    /// An engine for `config`, not yet started.
    pub fn new(config: Config) -> (engine: Self)
        ensures
            engine@ == initial(config.channel_id),
            engine.configured() == config,
    {
        let engine = Engine {
            config,
            phase: Phase::Uninitialized,
            members: MembershipSet::new(),
            backlog: Vec::new(),
        };
        assert(engine.backlog.deep_view() == Seq::<ChatMessageView>::empty());
        engine
    }

    /// The configuration that the engine was built with.
    pub fn config(&self) -> (config: &Config)
        ensures
            *config == self.configured(),
            config.channel_id == self@.channel,
    {
        &self.config
    }

    /// The phase that the engine is in.
    pub fn phase(&self) -> (phase: Phase)
        ensures
            phase == self@.phase,
    {
        self.phase
    }

    /// Whether `id` is known to be in the playlist or claimed for it.
    pub fn is_known(&self, id: &str) -> (known: bool)
        ensures
            known == self@.members.contains(id@),
    {
        self.members.contains(id)
    }

    /// The number of identifiers known to be in the playlist or claimed for it.
    pub fn known_count(&self) -> (n: usize)
        ensures
            n == self@.members.len(),
    {
        self.members.len()
    }

    /// Takes one event and returns the command that answers it.
    pub fn handle(&mut self, event: Event) -> (command: Command)
        ensures
            (final(self)@, command@) == transition(old(self)@, event@),
            final(self).configured() == old(self).configured(),
    {
        match event {
            Event::Shutdown => {
                self.phase = Phase::Terminated;
                Command::Idle
            },
            Event::Start => {
                if self.phase == Phase::Uninitialized {
                    self.phase = Phase::Seeding;
                    Command::ListMembership { cursor: None }
                } else {
                    Command::Idle
                }
            },
            Event::Listed { entries, next } => {
                if self.phase == Phase::Seeding {
                    self.members.absorb(&entries);
                    match next {
                        Some(cursor) => Command::ListMembership { cursor: Some(cursor) },
                        None => {
                            self.phase = Phase::Backfilling;
                            Command::FetchHistory { cursor: None }
                        },
                    }
                } else {
                    Command::Idle
                }
            },
            Event::ListingFailed(failure) => {
                if self.phase == Phase::Seeding {
                    self.phase = Phase::Terminated;
                    Command::Abort(failure)
                } else {
                    Command::Idle
                }
            },
            Event::HistoryPage { messages, next } => {
                if self.phase == Phase::Backfilling {
                    let ghost page = messages.deep_view();
                    let ghost before = self.backlog.deep_view();
                    let mut messages = messages;
                    self.backlog.append(&mut messages);
                    assert(self.backlog.deep_view() == before + page);
                    match next {
                        Some(cursor) => Command::FetchHistory { cursor: Some(cursor) },
                        None => self.finish_backfill(),
                    }
                } else {
                    Command::Idle
                }
            },
            Event::HistoryFailed(_) => {
                if self.phase == Phase::Backfilling {
                    self.finish_backfill()
                } else {
                    Command::Idle
                }
            },
            Event::Message(msg) => {
                if self.phase == Phase::Live {
                    match process_message(&mut self.members, self.config.channel_id, &msg) {
                        Some(id) => {
                            let mut ids: Vec<TrackIdentifier> = Vec::new();
                            ids.push(id);
                            assert(ids.deep_view() == seq![id@]);
                            Command::Append(ids)
                        },
                        None => Command::Idle,
                    }
                } else {
                    Command::Idle
                }
            },
            Event::AppendFailed { .. } => Command::Idle,
        }
    }

    /// Reconciles the collected backlog and goes live.
    fn finish_backfill(&mut self) -> (command: Command)
        ensures
            (final(self)@, command@) == go_live(old(self)@),
            final(self).configured() == old(self).configured(),
    {
        let due = reconcile(&mut self.members, self.config.channel_id, &self.backlog);
        self.backlog = Vec::new();
        self.phase = Phase::Live;
        assert(self.backlog.deep_view() == Seq::<ChatMessageView>::empty());
        if due.len() == 0 {
            Command::Idle
        } else {
            Command::Append(due)
        }
    }
}

} // verus!
