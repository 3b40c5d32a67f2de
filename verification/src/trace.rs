//! What holds of the engine over a whole run: any sequence of events, in any
//! order, from any state.

use crate::engine::{go_live, transition, CommandView, EngineView, EventView, Phase};
use crate::laws::{law_due_once_each, law_known_history_is_idle, law_processed_are_known, proposed};
use crate::membership::listed;
use crate::message::ChatMessageView;
use crate::pipeline::{candidate, process_all};
use vstd::prelude::*;

verus! {

/// The identifiers that a command asks to be appended.
pub open spec fn command_ids(command: CommandView) -> Seq<Seq<char>> {
    match command {
        CommandView::Append(ids) => ids,
        _ => Seq::empty(),
    }
}

/// The engine after a run of events, and the commands it answered with, one
/// for each event.
pub open spec fn replay(e: EngineView, events: Seq<EventView>) -> (EngineView, Seq<CommandView>)
    decreases events.len(),
{
    if events.len() == 0 {
        (e, Seq::empty())
    } else {
        let earlier = replay(e, events.drop_last());
        let latest = transition(earlier.0, events.last());
        (latest.0, earlier.1.push(latest.1))
    }
}

/// Every identifier that a run of commands asks to be appended, in order.
pub open spec fn appended(commands: Seq<CommandView>) -> Seq<Seq<char>>
    decreases commands.len(),
{
    if commands.len() == 0 {
        Seq::empty()
    } else {
        appended(commands.drop_last()) + command_ids(commands.last())
    }
}

/// How far along a phase is.
pub open spec fn rank(phase: Phase) -> nat {
    match phase {
        Phase::Uninitialized => 0,
        Phase::Seeding => 1,
        Phase::Backfilling => 2,
        Phase::Live => 3,
        Phase::Terminated => 4,
    }
}

/// The messages that an event carries.
pub open spec fn carried(event: EventView) -> Seq<ChatMessageView> {
    match event {
        EventView::HistoryPage { messages, .. } => messages,
        EventView::Message(msg) => seq![msg],
        _ => Seq::empty(),
    }
}

/// The entries of the playlist's listing that an event carries.
pub open spec fn entries_of(event: EventView) -> Seq<Option<Seq<char>>> {
    match event {
        EventView::Listed { entries, .. } => entries,
        _ => Seq::empty(),
    }
}

/// The identifiers that the listing pages among a run of events hold.
pub open spec fn listings(events: Seq<EventView>) -> Set<Seq<char>> {
    Set::new(
        |id: Seq<char>|
            exists|k: int|
                0 <= k < events.len() && listed(entries_of(#[trigger] events[k])).contains(id),
    )
}

/// One step. The channel stays, nothing known is forgotten, and what the
/// command asks to be appended is free of repeats, was unknown before the
/// step and is known after it.
pub proof fn law_step_claims_what_it_appends(e: EngineView, event: EventView)
    ensures
        transition(e, event).0.channel == e.channel,
        e.members.subset_of(transition(e, event).0.members),
        command_ids(transition(e, event).1).no_duplicates(),
        forall|j: int|
            0 <= j < command_ids(transition(e, event).1).len() ==> {
                &&& !e.members.contains(#[trigger] command_ids(transition(e, event).1)[j])
                &&& transition(e, event).0.members.contains(
                    command_ids(transition(e, event).1)[j],
                )
            },
{
    match event {
        EventView::HistoryPage { messages, next } => {
            if e.phase == Phase::Backfilling && next is None {
                let collected = EngineView { backlog: e.backlog + messages, ..e };
                lemma_go_live(collected);
            }
        },
        EventView::HistoryFailed(_) => {
            if e.phase == Phase::Backfilling {
                lemma_go_live(e);
            }
        },
        _ => {},
    }
}

/// What going live appends was unknown, is known afterwards, and holds no repeat.
proof fn lemma_go_live(e: EngineView)
    ensures
        e.members.subset_of(go_live(e).0.members),
        command_ids(go_live(e).1) == process_all(e.members, e.channel, e.backlog.reverse()).1,
        command_ids(go_live(e).1).no_duplicates(),
        forall|j: int|
            0 <= j < command_ids(go_live(e).1).len() ==> {
                &&& !e.members.contains(#[trigger] command_ids(go_live(e).1)[j])
                &&& go_live(e).0.members.contains(command_ids(go_live(e).1)[j])
            },
{
    let msgs = e.backlog.reverse();
    let due = process_all(e.members, e.channel, msgs).1;
    law_processed_are_known(e.members, e.channel, msgs);
    law_due_once_each(e.members, e.channel, msgs);
    assert forall|j: int| 0 <= j < due.len() implies !e.members.contains(#[trigger] due[j])
        && go_live(e).0.members.contains(due[j]) by {
        assert(due.to_set().contains(due[j]));
    }
}

/// The engine's promise. Over any run of events from any state, no
/// identifier is asked to be appended twice, none that was known at the
/// start is asked to be appended at all, and all that were are known at
/// the end, together with everything known at the start.
pub proof fn law_each_identifier_appended_once(e: EngineView, events: Seq<EventView>)
    ensures
        replay(e, events).0.channel == e.channel,
        e.members.subset_of(replay(e, events).0.members),
        appended(replay(e, events).1).no_duplicates(),
        forall|j: int|
            0 <= j < appended(replay(e, events).1).len() ==> {
                &&& !e.members.contains(#[trigger] appended(replay(e, events).1)[j])
                &&& replay(e, events).0.members.contains(appended(replay(e, events).1)[j])
            },
    decreases events.len(),
{
    if events.len() > 0 {
        let earlier = replay(e, events.drop_last());
        let latest = transition(earlier.0, events.last());
        let before = appended(earlier.1);
        let fresh = command_ids(latest.1);
        let all = appended(replay(e, events).1);
        law_each_identifier_appended_once(e, events.drop_last());
        law_step_claims_what_it_appends(earlier.0, events.last());
        assert(earlier.1.push(latest.1).drop_last() == earlier.1);
        assert(all == before + fresh);
    }
}

/// One step lets into the set only what the event lists and what the
/// command asks to be appended.
proof fn lemma_step_accounts(e: EngineView, event: EventView)
    ensures
        transition(e, event).0.members.subset_of(
            e.members.union(listed(entries_of(event))).union(
                command_ids(transition(e, event).1).to_set(),
            ),
        ),
{
    match event {
        EventView::HistoryPage { messages, next } => {
            if e.phase == Phase::Backfilling && next is None {
                lemma_go_live_accounts(EngineView { backlog: e.backlog + messages, ..e });
            }
        },
        EventView::HistoryFailed(_) => {
            if e.phase == Phase::Backfilling {
                lemma_go_live_accounts(e);
            }
        },
        EventView::Message(msg) => {
            if e.phase == Phase::Live {
                let ids = command_ids(transition(e, event).1);
                if ids.len() > 0 {
                    assert(ids.to_set().contains(ids[0]));
                }
            }
        },
        _ => {},
    }
}

/// Going live lets into the set only what it asks to be appended.
proof fn lemma_go_live_accounts(e: EngineView)
    ensures
        go_live(e).0.members.subset_of(e.members.union(command_ids(go_live(e).1).to_set())),
{
    let msgs = e.backlog.reverse();
    law_processed_are_known(e.members, e.channel, msgs);
    law_due_once_each(e.members, e.channel, msgs);
    assert(command_ids(go_live(e).1) == process_all(e.members, e.channel, msgs).1);
}

/// Nothing enters the set unaccounted for. Over any run of events from any
/// state, every identifier known at the end was known at the start, or was
/// held by a page of the playlist's listing, or was asked to be appended.
pub proof fn law_known_is_listed_or_appended(e: EngineView, events: Seq<EventView>)
    ensures
        replay(e, events).0.members.subset_of(
            e.members.union(listings(events)).union(appended(replay(e, events).1).to_set()),
        ),
    decreases events.len(),
{
    if events.len() > 0 {
        let shorter = events.drop_last();
        let earlier = replay(e, shorter);
        let latest = transition(earlier.0, events.last());
        let before = appended(earlier.1);
        let fresh = command_ids(latest.1);
        let all = appended(replay(e, events).1);
        law_known_is_listed_or_appended(e, shorter);
        lemma_step_accounts(earlier.0, events.last());
        assert(earlier.1.push(latest.1).drop_last() == earlier.1);
        assert(all == before + fresh);
        assert forall|id: Seq<char>| latest.0.members.contains(id) implies e.members.union(
            listings(events),
        ).union(all.to_set()).contains(id) by {
            if before.to_set().contains(id) {
                let k = choose|k: int| 0 <= k < before.len() && before[k] == id;
                assert(all[k] == id);
            }
            if fresh.to_set().contains(id) {
                let k = choose|k: int| 0 <= k < fresh.len() && fresh[k] == id;
                assert(all[before.len() + k] == id);
            }
            if listings(shorter).contains(id) {
                let k = choose|k: int|
                    0 <= k < shorter.len() && listed(entries_of(#[trigger] shorter[k])).contains(
                        id,
                    );
                assert(events[k] == shorter[k]);
            }
            if listed(entries_of(events.last())).contains(id) {
                assert(events[events.len() - 1] == events.last());
            }
        }
    }
}

/// Seeding. Once a page of the playlist's listing has been taken in, an
/// identifier that the page holds is never asked to be appended, whatever
/// events follow.
pub proof fn law_listed_identifier_is_never_appended(
    e: EngineView,
    entries: Seq<Option<Seq<char>>>,
    next: Option<u64>,
    events: Seq<EventView>,
    id: Seq<char>,
)
    requires
        e.phase == Phase::Seeding,
        entries.contains(Some(id)),
    ensures
        !appended(
            replay(transition(e, EventView::Listed { entries, next }).0, events).1,
        ).contains(id),
{
    let seeded = transition(e, EventView::Listed { entries, next }).0;
    law_each_identifier_appended_once(seeded, events);
}

/// A message that refers to a known identifier asks for nothing and changes
/// nothing, in any phase.
pub proof fn law_known_identifier_is_idle(e: EngineView, msg: ChatMessageView)
    requires
        candidate(e.channel, msg) matches Some(id) && e.members.contains(id),
    ensures
        transition(e, EventView::Message(msg)) == (e, CommandView::Idle),
{
    let id = candidate(e.channel, msg)->0;
    assert(e.members.insert(id) =~= e.members);
}

/// Whether all that the messages of a run of events refer to is in `members`.
pub open spec fn refers_only_to(members: Set<Seq<char>>, channel: u64, events: Seq<EventView>) -> bool {
    forall|k: int|
        0 <= k < events.len() ==> proposed(channel, carried(#[trigger] events[k])).subset_of(
            members,
        )
}

/// Restarting. An engine that knows every identifier that its backlog and
/// the messages of a run of events refer to asks for no append over that
/// run: a fresh process seeded from a playlist that holds the history's tracks
/// adds none of them again.
pub proof fn law_known_feed_appends_nothing(e: EngineView, events: Seq<EventView>)
    requires
        proposed(e.channel, e.backlog).subset_of(e.members),
        refers_only_to(e.members, e.channel, events),
    ensures
        appended(replay(e, events).1) == Seq::<Seq<char>>::empty(),
        proposed(e.channel, replay(e, events).0.backlog).subset_of(replay(e, events).0.members),
    decreases events.len(),
{
    if events.len() > 0 {
        let shorter = events.drop_last();
        let event = events.last();
        let earlier = replay(e, shorter);
        assert(refers_only_to(e.members, e.channel, shorter));
        law_known_feed_appends_nothing(e, shorter);
        law_each_identifier_appended_once(e, shorter);
        lemma_known_step_appends_nothing(earlier.0, event);
        assert(earlier.1.push(transition(earlier.0, event).1).drop_last() == earlier.1);
    }
}

/// One step of an engine that knows all that its backlog and the event refer to.
proof fn lemma_known_step_appends_nothing(e: EngineView, event: EventView)
    requires
        proposed(e.channel, e.backlog).subset_of(e.members),
        proposed(e.channel, carried(event)).subset_of(e.members),
    ensures
        command_ids(transition(e, event).1) == Seq::<Seq<char>>::empty(),
        proposed(e.channel, transition(e, event).0.backlog).subset_of(
            transition(e, event).0.members,
        ),
{
    match event {
        EventView::HistoryPage { messages, next } => {
            if e.phase == Phase::Backfilling {
                lemma_proposed_concat(e.channel, e.backlog, messages);
                if next is None {
                    lemma_known_backlog_goes_live_idle(
                        EngineView { backlog: e.backlog + messages, ..e },
                    );
                }
            }
        },
        EventView::HistoryFailed(_) => {
            if e.phase == Phase::Backfilling {
                lemma_known_backlog_goes_live_idle(e);
            }
        },
        EventView::Message(msg) => {
            if e.phase == Phase::Live {
                assert(seq![msg][0] == msg);
                if candidate(e.channel, msg) is Some {
                    law_known_identifier_is_idle(e, msg);
                }
            }
        },
        _ => {},
    }
}

/// Two runs of messages put forward what either puts forward.
proof fn lemma_proposed_concat(channel: u64, a: Seq<ChatMessageView>, b: Seq<ChatMessageView>)
    ensures
        proposed(channel, a + b) == proposed(channel, a).union(proposed(channel, b)),
{
    let both = a + b;
    assert forall|id: Seq<char>| proposed(channel, both).contains(id) <==> proposed(
        channel,
        a,
    ).union(proposed(channel, b)).contains(id) by {
        if proposed(channel, both).contains(id) {
            let k = choose|k: int|
                0 <= k < both.len() && candidate(channel, #[trigger] both[k]) == Some(id);
            assert(both[k] == if k < a.len() {
                a[k]
            } else {
                b[k - a.len()]
            });
        }
        if proposed(channel, a).contains(id) {
            let k = choose|k: int| 0 <= k < a.len() && candidate(channel, #[trigger] a[k]) == Some(id);
            assert(candidate(channel, both[k]) == Some(id));
        }
        if proposed(channel, b).contains(id) {
            let k = choose|k: int| 0 <= k < b.len() && candidate(channel, #[trigger] b[k]) == Some(id);
            assert(candidate(channel, both[a.len() + k]) == Some(id));
        }
    }
}

/// An engine that knows all that its backlog refers to goes live without
/// asking for an append.
proof fn lemma_known_backlog_goes_live_idle(e: EngineView)
    requires
        proposed(e.channel, e.backlog).subset_of(e.members),
    ensures
        go_live(e).1 == CommandView::Idle,
        go_live(e).0.members == e.members,
{
    let msgs = e.backlog.reverse();
    assert forall|id: Seq<char>| proposed(e.channel, msgs).contains(id) implies proposed(
        e.channel,
        e.backlog,
    ).contains(id) by {
        let k = choose|k: int|
            0 <= k < msgs.len() && candidate(e.channel, #[trigger] msgs[k]) == Some(id);
        assert(msgs[k] == e.backlog[e.backlog.len() - 1 - k]);
    }
    law_known_history_is_idle(e.members, e.channel, msgs);
}

/// The phases follow one another: no event takes the engine back. The
/// backfill is entered only from seeding, on the playlist's listing, and live
/// operation only from the backfill, so that no message is handled on an
/// unseeded set.
pub proof fn law_phases_advance(e: EngineView, event: EventView)
    ensures
        rank(e.phase) <= rank(transition(e, event).0.phase),
        transition(e, event).0.phase == Phase::Backfilling && e.phase != Phase::Backfilling ==> {
            &&& e.phase == Phase::Seeding
            &&& event is Listed
        },
        transition(e, event).0.phase == Phase::Live && e.phase != Phase::Live ==> {
            &&& e.phase == Phase::Backfilling
            &&& (event is HistoryPage || event is HistoryFailed)
        },
{
}

} // verus!
