//! The path that every message takes, live or from the backlog: find the
//! identifier, pass the dedup gate, and hand back what is to be appended.

use crate::extract::{extract, extracted, TrackIdentifier};
use crate::membership::{claim, MembershipSet};
use crate::message::{ChatMessage, ChatMessageView};
use vstd::prelude::*;

verus! {

/// The identifier that a message puts forward: the one its text refers to,
/// provided the message was posted in the channel that is listened to.
pub open spec fn candidate(channel: u64, msg: ChatMessageView) -> Option<Seq<char>> {
    if msg.channel_id == channel {
        extracted(msg.content)
    } else {
        None
    }
}

/// The dedup gate: a candidate that the set does not hold yet enters the set
/// and is to be appended; any other leaves the set as it is and appends nothing.
pub open spec fn gate(members: Set<Seq<char>>, candidate: Option<Seq<char>>) -> (
    Set<Seq<char>>,
    Option<Seq<char>>,
) {
    match candidate {
        Some(id) => (
            claim(members, id).0,
            if claim(members, id).1 {
                Some(id)
            } else {
                None
            },
        ),
        None => (members, None),
    }
}

/// What one message does to the set, and the identifier it causes to be appended.
pub open spec fn process(members: Set<Seq<char>>, channel: u64, msg: ChatMessageView) -> (
    Set<Seq<char>>,
    Option<Seq<char>>,
) {
    gate(members, candidate(channel, msg))
}

/// What a run of messages, taken first to last, does to the set, and the
/// identifiers it causes to be appended, in the order in which they are due.
pub open spec fn process_all(members: Set<Seq<char>>, channel: u64, msgs: Seq<ChatMessageView>) -> (
    Set<Seq<char>>,
    Seq<Seq<char>>,
)
    decreases msgs.len(),
{
    if msgs.len() == 0 {
        (members, Seq::empty())
    } else {
        let earlier = process_all(members, channel, msgs.drop_last());
        let latest = process(earlier.0, channel, msgs.last());
        (
            latest.0,
            match latest.1 {
                Some(id) => earlier.1.push(id),
                None => earlier.1,
            },
        )
    }
}

/// The identifier that `msg` puts forward for the playlist, if any. A message
/// from another channel is turned away before its text is looked at.
pub fn propose(channel: u64, msg: &ChatMessage) -> (found: Option<TrackIdentifier>)
    ensures
        found.deep_view() == candidate(channel, msg@),
{
    if msg.channel_id != channel {
        return None;
    }
    extract(msg.content.as_str())
}

/// Passes a candidate through the dedup gate. Returns the identifier when this
/// call claimed it, and with it the duty to append it; returns `None` when
/// there is no candidate or the identifier was known already.
pub fn pass_gate(members: &mut MembershipSet, candidate: Option<TrackIdentifier>) -> (due: Option<
    TrackIdentifier,
>)
    ensures
        (final(members)@, due.deep_view()) == gate(old(members)@, candidate.deep_view()),
{
    match candidate {
        Some(id) => {
            if members.insert_if_absent(id.as_str()) {
                Some(id)
            } else {
                None
            }
        },
        None => None,
    }
}

/// Runs one message through the pipeline and returns the identifier that is
/// to be appended on its account, if any.
pub fn process_message(members: &mut MembershipSet, channel: u64, msg: &ChatMessage) -> (due:
    Option<TrackIdentifier>)
    ensures
        (final(members)@, due.deep_view()) == process(old(members)@, channel, msg@),
{
    pass_gate(members, propose(channel, msg))
}

/// Reconciles a backlog. `history` holds the messages in the order in which
/// the history source yields them, newest first; they are processed oldest
/// first, so that the identifiers come out in the order in which the tracks
/// were shared.
pub fn reconcile(members: &mut MembershipSet, channel: u64, history: &Vec<ChatMessage>) -> (due:
    Vec<TrackIdentifier>)
    ensures
        (final(members)@, due.deep_view()) == process_all(
            old(members)@,
            channel,
            history.deep_view().reverse(),
        ),
{
    let ghost start = members@;
    let ghost oldest_first = history.deep_view().reverse();
    let mut due: Vec<TrackIdentifier> = Vec::new();
    let mut remaining: usize = history.len();
    while remaining > 0
        invariant
            remaining <= history.len(),
            oldest_first == history.deep_view().reverse(),
            (members@, due.deep_view()) == process_all(
                start,
                channel,
                oldest_first.take(history.len() - remaining),
            ),
        decreases remaining,
    {
        let ghost done = history.len() - remaining;
        remaining -= 1;
        proof {
            assert(oldest_first.take(done + 1).drop_last() == oldest_first.take(done));
        }
        match process_message(members, channel, &history[remaining]) {
            Some(id) => {
                due.push(id);
            },
            None => {},
        }
    }
    proof {
        assert(oldest_first.take(history.len() as int) == oldest_first);
    }
    due
}

} // verus!
