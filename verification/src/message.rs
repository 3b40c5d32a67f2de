//! The plain values that the engine is handed and hands back.

use vstd::prelude::*;

verus! {

/// One chat message as the gateway delivered it.
#[derive(Clone, Debug, PartialEq, Eq)]
pub struct ChatMessage {
    /// The channel that the message was posted in.
    pub channel_id: u64,
    /// The raw text of the message.
    pub content: String,
    /// The position of the message in the channel: later messages carry larger numbers.
    pub sequence: u64,
    /// Who posted the message. The engine does not read it.
    pub author_id: u64,
}

/// A chat message as contracts see it.
pub struct ChatMessageView {
    pub channel_id: u64,
    pub content: Seq<char>,
    pub sequence: u64,
    pub author_id: u64,
}

impl View for ChatMessage {
    type V = ChatMessageView;

    open spec fn view(&self) -> ChatMessageView {
        ChatMessageView {
            channel_id: self.channel_id,
            content: self.content@,
            sequence: self.sequence,
            author_id: self.author_id,
        }
    }
}

impl DeepView for ChatMessage {
    type V = ChatMessageView;

    open spec fn deep_view(&self) -> ChatMessageView {
        self@
    }
}

/// Where the engine listens and where it writes.
#[derive(Clone, Debug, PartialEq, Eq)]
pub struct Config {
    /// The one channel whose messages are read.
    pub channel_id: u64,
    /// The playlist that receives the tracks.
    pub collection_id: String,
    /// The account under which the playlist is changed.
    pub owner_context: String,
    /// What the playlist service accepts as proof of that account.
    pub credential_handle: String,
}

/// The playlist that is written to, and the account that writes.
#[derive(Clone, Debug, PartialEq, Eq)]
pub struct SynchronizationTarget {
    /// The playlist that receives the tracks.
    pub collection_id: String,
    /// The account under which the playlist is changed.
    pub owner_context: String,
}

impl Config {
    /// The destination that this configuration names.
    pub fn target(&self) -> (target: SynchronizationTarget)
        ensures
            target.collection_id == self.collection_id,
            target.owner_context == self.owner_context,
    {
        SynchronizationTarget {
            collection_id: self.collection_id.clone(),
            owner_context: self.owner_context.clone(),
        }
    }
}

/// Why a call to a remote service did not succeed.
#[derive(Clone, Copy, Debug, PartialEq, Eq, Structural)]
pub enum RemoteFailure {
    /// No valid credential could be had.
    AuthFailure,
    /// The service could not be reached.
    Unavailable,
    /// The service was reached and refused the request.
    Rejected,
}

/// The failure that an HTTP status other than success stands for. A service
/// that asks for a fresh credential or to come back later, or that fails on
/// its own side, is unavailable; any other answer is a refusal.
pub open spec fn status_failure(status: u16) -> RemoteFailure {
    if status == 401 || status == 408 || status == 429 || status >= 500 {
        RemoteFailure::Unavailable
    } else {
        RemoteFailure::Rejected
    }
}

/// Sorts the status of a failed request into unavailable or rejected.
pub fn classify_status(status: u16) -> (failure: RemoteFailure)
    ensures
        failure == status_failure(status),
{
    if status == 401 || status == 408 || status == 429 || status >= 500 {
        RemoteFailure::Unavailable
    } else {
        RemoteFailure::Rejected
    }
}

/// The cursor of the page that lies before `page` in a channel's history: the
/// sequence number of the page's last, and so oldest, message. A page that
/// is not full is the last one, and has no page before it.
pub open spec fn cursor_before(page: Seq<ChatMessageView>, page_size: nat) -> Option<u64> {
    if page.len() > 0 && page.len() >= page_size {
        Some(page.last().sequence)
    } else {
        None
    }
}

/// The cursor to fetch the next older page with, or `None` when `page` was
/// the last one. `page` holds the messages newest first, at most `page_size`
/// of them.
pub fn older_cursor(page: &Vec<ChatMessage>, page_size: usize) -> (cursor: Option<u64>)
    ensures
        cursor == cursor_before(page.deep_view(), page_size as nat),
{
    if page.len() > 0 && page.len() >= page_size {
        Some(page[page.len() - 1].sequence)
    } else {
        None
    }
}

} // verus!
