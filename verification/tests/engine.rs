use tracksync::engine::{Command, Engine, Event, Phase};
use tracksync::message::{ChatMessage, Config, RemoteFailure};

const CHANNEL: u64 = 42;

fn config() -> Config {
    Config {
        channel_id: CHANNEL,
        collection_id: "playlist".to_string(),
        owner_context: "owner".to_string(),
        credential_handle: "handle".to_string(),
    }
}

fn link(sequence: u64, id: &str) -> ChatMessage {
    ChatMessage {
        channel_id: CHANNEL,
        content: format!("https://open.example.com/track/{}?si=s", id),
        sequence,
        author_id: 7,
    }
}

fn talk(sequence: u64, content: &str) -> ChatMessage {
    ChatMessage { channel_id: CHANNEL, content: content.to_string(), sequence, author_id: 7 }
}

fn ids(list: &[&str]) -> Vec<String> {
    list.iter().map(|id| id.to_string()).collect()
}

fn listing(list: &[&str]) -> Vec<Option<String>> {
    list.iter().map(|id| Some(id.to_string())).collect()
}

fn listed(list: &[&str]) -> Event {
    Event::Listed { entries: listing(list), next: None }
}

fn page(messages: Vec<ChatMessage>, next: Option<u64>) -> Event {
    Event::HistoryPage { messages, next }
}

fn live_engine(members: &[&str]) -> Engine {
    let mut engine = Engine::new(config());
    assert_eq!(engine.handle(Event::Start), Command::ListMembership { cursor: None });
    assert_eq!(engine.handle(listed(members)), Command::FetchHistory { cursor: None });
    assert_eq!(engine.handle(page(Vec::new(), None)), Command::Idle);
    assert_eq!(engine.phase(), Phase::Live);
    engine
}

#[test]
fn new_engine_is_uninitialized() {
    let engine = Engine::new(config());
    assert_eq!(engine.phase(), Phase::Uninitialized);
    assert_eq!(engine.known_count(), 0);
    assert_eq!(*engine.config(), config());
}

#[test]
fn start_asks_for_the_listing() {
    let mut engine = Engine::new(config());
    assert_eq!(engine.handle(Event::Start), Command::ListMembership { cursor: None });
    assert_eq!(engine.phase(), Phase::Seeding);
}

#[test]
fn listing_seeds_and_starts_the_backfill() {
    let mut engine = Engine::new(config());
    engine.handle(Event::Start);
    let entries = vec![Some("a".to_string()), None, Some("b".to_string())];
    assert_eq!(
        engine.handle(Event::Listed { entries, next: None }),
        Command::FetchHistory { cursor: None }
    );
    assert_eq!(engine.phase(), Phase::Backfilling);
    assert_eq!(engine.known_count(), 2);
    assert!(engine.is_known("a") && engine.is_known("b"));
}

#[test]
fn listing_is_paged_until_exhausted() {
    let mut engine = Engine::new(config());
    engine.handle(Event::Start);
    assert_eq!(
        engine.handle(Event::Listed { entries: listing(&["a", "b"]), next: Some(100) }),
        Command::ListMembership { cursor: Some(100) }
    );
    assert_eq!(engine.phase(), Phase::Seeding);
    assert_eq!(
        engine.handle(Event::Listed { entries: listing(&["c"]), next: None }),
        Command::FetchHistory { cursor: None }
    );
    assert_eq!(engine.phase(), Phase::Backfilling);
    assert_eq!(engine.known_count(), 3);
    assert_eq!(engine.handle(page(vec![link(1, "a"), link(2, "c")], None)), Command::Idle);
}

#[test]
fn failed_listing_page_is_fatal() {
    let mut engine = Engine::new(config());
    engine.handle(Event::Start);
    engine.handle(Event::Listed { entries: listing(&["a"]), next: Some(100) });
    assert_eq!(
        engine.handle(Event::ListingFailed(RemoteFailure::Unavailable)),
        Command::Abort(RemoteFailure::Unavailable)
    );
    assert_eq!(engine.phase(), Phase::Terminated);
}

#[test]
fn failed_listing_is_fatal() {
    let mut engine = Engine::new(config());
    engine.handle(Event::Start);
    assert_eq!(
        engine.handle(Event::ListingFailed(RemoteFailure::Unavailable)),
        Command::Abort(RemoteFailure::Unavailable)
    );
    assert_eq!(engine.phase(), Phase::Terminated);
    assert_eq!(engine.handle(Event::Message(link(1, "abc"))), Command::Idle);
    assert!(!engine.is_known("abc"));
}

#[test]
fn failed_credential_is_fatal() {
    let mut engine = Engine::new(config());
    engine.handle(Event::Start);
    assert_eq!(
        engine.handle(Event::ListingFailed(RemoteFailure::AuthFailure)),
        Command::Abort(RemoteFailure::AuthFailure)
    );
    assert_eq!(engine.phase(), Phase::Terminated);
}

#[test]
fn history_is_paged_until_exhausted() {
    let mut engine = Engine::new(config());
    engine.handle(Event::Start);
    engine.handle(listed(&[]));
    assert_eq!(
        engine.handle(page(vec![link(4, "D"), link(3, "C")], Some(3))),
        Command::FetchHistory { cursor: Some(3) }
    );
    assert_eq!(engine.phase(), Phase::Backfilling);
    assert!(!engine.is_known("D"));
    assert_eq!(
        engine.handle(page(vec![link(2, "B"), link(1, "A")], None)),
        Command::Append(ids(&["A", "B", "C", "D"]))
    );
    assert_eq!(engine.phase(), Phase::Live);
}

#[test]
fn backfill_appends_in_chronological_order() {
    let mut engine = Engine::new(config());
    engine.handle(Event::Start);
    engine.handle(listed(&[]));
    assert_eq!(
        engine.handle(page(vec![link(3, "C"), link(2, "B"), link(1, "A")], None)),
        Command::Append(ids(&["A", "B", "C"]))
    );
}

#[test]
fn failed_page_ends_the_paging_and_keeps_what_was_collected() {
    let mut engine = Engine::new(config());
    engine.handle(Event::Start);
    engine.handle(listed(&[]));
    engine.handle(page(vec![link(4, "D"), link(3, "C")], Some(3)));
    assert_eq!(
        engine.handle(Event::HistoryFailed(RemoteFailure::Unavailable)),
        Command::Append(ids(&["C", "D"]))
    );
    assert_eq!(engine.phase(), Phase::Live);
}

#[test]
fn failed_first_page_goes_live_with_nothing_to_append() {
    let mut engine = Engine::new(config());
    engine.handle(Event::Start);
    engine.handle(listed(&[]));
    assert_eq!(engine.handle(Event::HistoryFailed(RemoteFailure::Unavailable)), Command::Idle);
    assert_eq!(engine.phase(), Phase::Live);
}

#[test]
fn listed_track_is_not_appended_when_mentioned_live() {
    let mut engine = live_engine(&["X"]);
    assert_eq!(engine.handle(Event::Message(link(1, "X"))), Command::Idle);
    assert_eq!(engine.known_count(), 1);
}

#[test]
fn live_message_appends_a_new_track_once() {
    let mut engine = live_engine(&[]);
    assert_eq!(engine.handle(Event::Message(link(1, "T"))), Command::Append(ids(&["T"])));
    assert_eq!(engine.handle(Event::Message(link(2, "T"))), Command::Idle);
    assert!(engine.is_known("T"));
}

#[test]
fn live_message_from_another_channel_is_ignored() {
    let mut engine = live_engine(&[]);
    let elsewhere = ChatMessage {
        channel_id: CHANNEL + 1,
        content: "https://open.example.com/track/T".to_string(),
        sequence: 1,
        author_id: 7,
    };
    assert_eq!(engine.handle(Event::Message(elsewhere)), Command::Idle);
    assert!(!engine.is_known("T"));
}

#[test]
fn live_message_without_link_is_ignored() {
    let mut engine = live_engine(&[]);
    assert_eq!(engine.handle(Event::Message(talk(1, "hello"))), Command::Idle);
    assert_eq!(engine.known_count(), 0);
}

#[test]
fn restart_on_the_same_history_appends_nothing() {
    let history = vec![link(4, "A"), link(3, "C"), link(2, "B"), link(1, "A")];
    let mut first = Engine::new(config());
    first.handle(Event::Start);
    first.handle(listed(&["N1", "N2"]));
    let appended = match first.handle(page(history.clone(), None)) {
        Command::Append(appended) => appended,
        other => panic!("expected an append, got {:?}", other),
    };
    assert_eq!(appended, ids(&["A", "B", "C"]));

    let mut playlist = listing(&["N1", "N2"]);
    playlist.extend(appended.into_iter().map(Some));
    let mut second = Engine::new(config());
    second.handle(Event::Start);
    second.handle(Event::Listed { entries: playlist, next: None });
    assert_eq!(second.handle(page(history, None)), Command::Idle);
    assert_eq!(second.phase(), Phase::Live);
    assert_eq!(second.known_count(), 5);
}

#[test]
fn end_to_end() {
    let mut engine = Engine::new(config());
    assert_eq!(engine.handle(Event::Start), Command::ListMembership { cursor: None });
    assert_eq!(engine.handle(listed(&[])), Command::FetchHistory { cursor: None });
    assert_eq!(
        engine.handle(page(vec![link(3, "T2"), link(2, "T1"), link(1, "T1")], None)),
        Command::Append(ids(&["T1", "T2"]))
    );
    assert_eq!(engine.handle(Event::Message(link(4, "T1"))), Command::Idle);
    assert_eq!(engine.handle(Event::Message(link(5, "T3"))), Command::Append(ids(&["T3"])));
    assert_eq!(engine.known_count(), 3);
}

#[test]
fn failed_append_is_not_tried_again() {
    let mut engine = live_engine(&[]);
    assert_eq!(engine.handle(Event::Message(link(1, "T"))), Command::Append(ids(&["T"])));
    let failed = Event::AppendFailed { id: "T".to_string(), failure: RemoteFailure::Rejected };
    assert_eq!(engine.handle(failed), Command::Idle);
    assert!(engine.is_known("T"));
    assert_eq!(engine.handle(Event::Message(link(2, "T"))), Command::Idle);
    let failed = Event::AppendFailed { id: "T".to_string(), failure: RemoteFailure::Unavailable };
    assert_eq!(engine.handle(failed), Command::Idle);
    assert_eq!(engine.phase(), Phase::Live);
}

#[test]
fn messages_before_live_are_not_processed() {
    let mut engine = Engine::new(config());
    assert_eq!(engine.handle(Event::Message(link(1, "T"))), Command::Idle);
    engine.handle(Event::Start);
    assert_eq!(engine.handle(Event::Message(link(1, "T"))), Command::Idle);
    engine.handle(listed(&[]));
    assert_eq!(engine.handle(Event::Message(link(1, "T"))), Command::Idle);
    assert!(!engine.is_known("T"));
    assert_eq!(engine.phase(), Phase::Backfilling);
}

#[test]
fn events_out_of_phase_change_nothing() {
    let mut engine = Engine::new(config());
    assert_eq!(engine.handle(listed(&["a"])), Command::Idle);
    assert_eq!(engine.handle(page(vec![link(1, "b")], None)), Command::Idle);
    assert_eq!(engine.handle(Event::HistoryFailed(RemoteFailure::Unavailable)), Command::Idle);
    assert_eq!(engine.handle(Event::ListingFailed(RemoteFailure::Unavailable)), Command::Idle);
    assert_eq!(engine.phase(), Phase::Uninitialized);
    assert_eq!(engine.known_count(), 0);

    let mut engine = live_engine(&[]);
    assert_eq!(engine.handle(Event::Start), Command::Idle);
    assert_eq!(engine.handle(listed(&["a"])), Command::Idle);
    assert_eq!(engine.handle(page(vec![link(1, "b")], None)), Command::Idle);
    assert_eq!(engine.phase(), Phase::Live);
    assert_eq!(engine.known_count(), 0);
}

#[test]
fn shutdown_terminates_from_any_phase() {
    let mut engine = Engine::new(config());
    assert_eq!(engine.handle(Event::Shutdown), Command::Idle);
    assert_eq!(engine.phase(), Phase::Terminated);
    assert_eq!(engine.handle(Event::Start), Command::Idle);
    assert_eq!(engine.phase(), Phase::Terminated);

    let mut engine = live_engine(&["a"]);
    assert_eq!(engine.handle(Event::Shutdown), Command::Idle);
    assert_eq!(engine.phase(), Phase::Terminated);
    assert_eq!(engine.handle(Event::Message(link(1, "T"))), Command::Idle);
    assert!(engine.is_known("a"));
    assert!(!engine.is_known("T"));
}

#[test]
fn configuration_names_its_target() {
    let target = config().target();
    assert_eq!(target.collection_id, "playlist");
    assert_eq!(target.owner_context, "owner");
}
