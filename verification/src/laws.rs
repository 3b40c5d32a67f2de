//! What holds of the pipeline as a whole, whatever the messages are.

use crate::message::ChatMessageView;
use crate::pipeline::{candidate, process, process_all};
use vstd::prelude::*;

verus! {

/// The identifiers that a run of messages puts forward.
pub open spec fn proposed(channel: u64, msgs: Seq<ChatMessageView>) -> Set<Seq<char>> {
    Set::new(
        |id: Seq<char>|
            exists|i: int| 0 <= i < msgs.len() && candidate(channel, #[trigger] msgs[i]) == Some(id),
    )
}

/// Whether the `i`-th message of a run is the one on whose account an
/// identifier is appended: it puts forward an identifier that was not known
/// at the start and that no earlier message of the run put forward.
pub open spec fn contributes(
    members: Set<Seq<char>>,
    channel: u64,
    msgs: Seq<ChatMessageView>,
    i: int,
) -> bool {
    match candidate(channel, msgs[i]) {
        Some(id) => !members.contains(id) && !proposed(channel, msgs.take(i)).contains(id),
        None => false,
    }
}

/// One more message adds its own identifier, if it has one, to those put forward.
proof fn lemma_proposed_step(channel: u64, msgs: Seq<ChatMessageView>)
    requires
        msgs.len() > 0,
    ensures
        proposed(channel, msgs) == match candidate(channel, msgs.last()) {
            Some(id) => proposed(channel, msgs.drop_last()).insert(id),
            None => proposed(channel, msgs.drop_last()),
        },
{
    let shorter = msgs.drop_last();
    let grown = match candidate(channel, msgs.last()) {
        Some(id) => proposed(channel, shorter).insert(id),
        None => proposed(channel, shorter),
    };
    assert forall|id: Seq<char>| proposed(channel, msgs).contains(id) <==> grown.contains(id) by {
        if proposed(channel, msgs).contains(id) {
            let k = choose|k: int|
                0 <= k < msgs.len() && candidate(channel, #[trigger] msgs[k]) == Some(id);
            if k < msgs.len() - 1 {
                assert(candidate(channel, shorter[k]) == Some(id));
            }
        }
    }
}

/// A run of messages leaves known what was known before and every identifier
/// it put forward.
pub proof fn law_processed_are_known(
    members: Set<Seq<char>>,
    channel: u64,
    msgs: Seq<ChatMessageView>,
)
    ensures
        process_all(members, channel, msgs).0 == members.union(proposed(channel, msgs)),
    decreases msgs.len(),
{
    if msgs.len() > 0 {
        law_processed_are_known(members, channel, msgs.drop_last());
        lemma_proposed_step(channel, msgs);
    }
}

/// The order of what is due. Taking one more message of a run adds that
/// message's identifier at the end of what is due exactly when the message
/// contributes, and adds nothing otherwise. So the identifiers come out in
/// the order in which they were first put forward.
pub proof fn law_due_in_order_of_first_mention(
    members: Set<Seq<char>>,
    channel: u64,
    msgs: Seq<ChatMessageView>,
    i: int,
)
    requires
        0 <= i < msgs.len(),
    ensures
        process_all(members, channel, msgs.take(i + 1)).1 == if contributes(
            members,
            channel,
            msgs,
            i,
        ) {
            process_all(members, channel, msgs.take(i)).1.push(candidate(channel, msgs[i])->0)
        } else {
            process_all(members, channel, msgs.take(i)).1
        },
{
    assert(msgs.take(i + 1).drop_last() == msgs.take(i));
    law_processed_are_known(members, channel, msgs.take(i));
}

/// What a run of messages makes due: every identifier that the run put
/// forward and that was not known at the start, each exactly once, and no other.
pub proof fn law_due_once_each(members: Set<Seq<char>>, channel: u64, msgs: Seq<ChatMessageView>)
    ensures
        process_all(members, channel, msgs).1.no_duplicates(),
        process_all(members, channel, msgs).1.to_set() == proposed(channel, msgs).difference(
            members,
        ),
    decreases msgs.len(),
{
    let due = process_all(members, channel, msgs).1;
    if msgs.len() > 0 {
        let shorter = msgs.drop_last();
        let earlier = process_all(members, channel, shorter);
        law_due_once_each(members, channel, shorter);
        law_processed_are_known(members, channel, shorter);
        lemma_proposed_step(channel, msgs);
        match process(earlier.0, channel, msgs.last()).1 {
            Some(id) => {
                assert forall|j: int, k: int|
                    0 <= j < due.len() && 0 <= k < due.len() && j != k implies due[j] != due[k] by {
                    if j < earlier.1.len() {
                        assert(earlier.1.to_set().contains(earlier.1[j]));
                    }
                    if k < earlier.1.len() {
                        assert(earlier.1.to_set().contains(earlier.1[k]));
                    }
                }
                assert forall|x: Seq<char>| due.to_set().contains(x) <==> proposed(
                    channel,
                    msgs,
                ).difference(members).contains(x) by {
                    if earlier.1.to_set().contains(x) {
                        let k = choose|k: int| 0 <= k < earlier.1.len() && earlier.1[k] == x;
                        assert(due[k] == x);
                    }
                    if x == id {
                        assert(due[due.len() - 1] == x);
                    }
                }
            },
            None => {},
        }
    }
}

/// Whether every message of a run puts forward an identifier, no two the
/// same, none of them in `members`.
pub open spec fn all_distinct_and_new(
    members: Set<Seq<char>>,
    channel: u64,
    msgs: Seq<ChatMessageView>,
) -> bool {
    &&& forall|i: int| 0 <= i < msgs.len() ==> candidate(channel, #[trigger] msgs[i]) is Some
    &&& forall|i: int, j: int|
        0 <= i < j < msgs.len() ==> candidate(channel, #[trigger] msgs[i]) != candidate(
            channel,
            #[trigger] msgs[j],
        )
    &&& forall|i: int|
        0 <= i < msgs.len() ==> !members.contains(candidate(channel, #[trigger] msgs[i])->0)
}

/// Where every message brings a new identifier, each message's identifier
/// is due, in the order of the messages.
proof fn lemma_all_due(members: Set<Seq<char>>, channel: u64, msgs: Seq<ChatMessageView>)
    requires
        all_distinct_and_new(members, channel, msgs),
    ensures
        process_all(members, channel, msgs).1 == Seq::new(
            msgs.len(),
            |k: int| candidate(channel, msgs[k])->0,
        ),
    decreases msgs.len(),
{
    if msgs.len() > 0 {
        let shorter = msgs.drop_last();
        let last = msgs.len() - 1;
        assert forall|i: int| 0 <= i < shorter.len() implies shorter[i] == msgs[i] by {}
        assert(all_distinct_and_new(members, channel, shorter));
        lemma_all_due(members, channel, shorter);
        assert(msgs.take(last + 1) == msgs);
        law_due_in_order_of_first_mention(members, channel, msgs, last);
    }
}

/// The backfill order. Let a history, newest message first, be such that
/// every message puts forward an identifier, no two the same, none known at
/// the start. Then what is due is the history's identifiers from the oldest
/// message to the newest.
pub proof fn law_backfill_oldest_first(
    members: Set<Seq<char>>,
    channel: u64,
    history: Seq<ChatMessageView>,
)
    requires
        all_distinct_and_new(members, channel, history),
    ensures
        process_all(members, channel, history.reverse()).1 == Seq::new(
            history.len(),
            |k: int| candidate(channel, history[history.len() - 1 - k])->0,
        ),
{
    let oldest_first = history.reverse();
    let n = history.len() as int;
    assert forall|i: int| 0 <= i < n implies oldest_first[i] == history[n - 1 - i] by {}
    assert(all_distinct_and_new(members, channel, oldest_first));
    lemma_all_due(members, channel, oldest_first);
    assert(process_all(members, channel, oldest_first).1 =~= Seq::new(
        history.len(),
        |k: int| candidate(channel, history[history.len() - 1 - k])->0,
    ));
}

/// Reprocessing what is known. A run of messages that puts forward only
/// identifiers that are known already makes nothing due and leaves the set as
/// it was.
pub proof fn law_known_history_is_idle(
    members: Set<Seq<char>>,
    channel: u64,
    msgs: Seq<ChatMessageView>,
)
    requires
        proposed(channel, msgs).subset_of(members),
    ensures
        process_all(members, channel, msgs) == (members, Seq::<Seq<char>>::empty()),
{
    law_processed_are_known(members, channel, msgs);
    law_due_once_each(members, channel, msgs);
    let outcome = process_all(members, channel, msgs);
    if outcome.1.len() > 0 {
        assert(outcome.1.to_set().contains(outcome.1[0]));
    }
}

/// Restarting. Let a first run reconcile a history on top of what it was
/// seeded with, and let a second run be seeded with at least what the first
/// run knew at its end: the playlist as the first run left it. Then the
/// second run, given the same history, makes nothing due.
pub proof fn law_restart_is_idle(
    seeded: Set<Seq<char>>,
    reseeded: Set<Seq<char>>,
    channel: u64,
    msgs: Seq<ChatMessageView>,
)
    requires
        process_all(seeded, channel, msgs).0.subset_of(reseeded),
    ensures
        process_all(reseeded, channel, msgs) == (reseeded, Seq::<Seq<char>>::empty()),
{
    law_processed_are_known(seeded, channel, msgs);
    law_known_history_is_idle(reseeded, channel, msgs);
}

} // verus!
