use std::path::PathBuf;

use rsdlp::telegram::state::Operation;
use rsdlp::telegram::state::SeenWindow;
use rsdlp::telegram::state::SEEN_LIMIT;
use rsdlp::telegram::BotState;
use rsdlp::telegram::PendingChoice;

fn fresh() -> BotState<&'static str, ()> {
    BotState::new_with_staging(PathBuf::from("staging"))
}

#[test]
fn test_bot_state_cancel() {
    let mut state = fresh();
    let peer_id: i64 = 42;

    assert!(!state.cancel(&peer_id).0);

    state.offer(
        peer_id,
        PendingChoice { url: "https://example.com".to_string(), title: "Example".to_string() },
    );
    assert!(state.cancel(&peer_id).0);
    assert!(!state.cancel(&peer_id).0);

    state.operation_started(peer_id, 1, "operation 10");
    assert_eq!(state.cancel(&peer_id), (true, vec![Operation { id: 1, handle: "operation 10" }]));
    assert!(!state.cancel(&peer_id).0);
}

#[test]
fn test_message_and_callback_deduplication() {
    let mut state = fresh();
    let peer_id: i64 = 12345;

    assert!(state.mark_message_seen(peer_id, 42));
    assert!(!state.mark_message_seen(peer_id, 42));
    assert!(state.mark_message_seen(peer_id, 43));

    assert!(state.mark_callback_seen(999));
    assert!(!state.mark_callback_seen(999));
    assert!(state.mark_callback_seen(1000));
}

#[test]
fn presses_without_a_number_are_always_new() {
    let mut state = fresh();
    assert!(state.mark_callback_seen(0));
    assert!(state.mark_callback_seen(0));
}

#[test]
fn messages_of_other_peers_are_other_messages() {
    let mut state = fresh();
    assert!(state.mark_message_seen(1, 7));
    assert!(state.mark_message_seen(2, 7));
    assert!(!state.mark_message_seen(1, 7));
}

#[test]
fn the_oldest_key_leaves_a_full_window() {
    let mut window = SeenWindow::new();
    assert!(window.mark((0, 0)));
    for i in 1..SEEN_LIMIT as i64 {
        assert!(window.mark((i, 0)));
    }
    assert!(!window.mark((0, 0)));
    assert!(window.mark((SEEN_LIMIT as i64, 0)));
    assert!(window.mark((0, 0)));
    assert!(!window.mark((2, 0)));
}

#[test]
fn own_messages_count_only_among_the_saved_ones() {
    let mut state = fresh();
    let me: i64 = 5;
    assert!(state.accept_message(me, 9, false, 1));
    assert!(!state.accept_message(me, 9, false, 1));
    assert!(!state.accept_message(me, 9, true, 2));
    assert!(state.accept_message(me, me, true, 3));
    assert!(!state.accept_message(me, me, true, 3));
    assert!(state.accept_message(me, 9, false, 2));
}

#[test]
fn cancelling_one_peer_leaves_the_others() {
    let mut state: BotState<u8, &str> =
        BotState::new_with_db(PathBuf::from("staging"), "store");
    assert_eq!(state.db, Some("store"));
    assert_eq!(state.staging_dir, PathBuf::from("staging"));
    state.operation_started(1, 1, 10);
    state.operation_started(2, 2, 20);
    assert_eq!(state.cancel(&1), (true, vec![Operation { id: 1, handle: 10 }]));
    assert_eq!(state.cancel(&2), (true, vec![Operation { id: 2, handle: 20 }]));
    state.operation_started(3, 3, 30);
    state.operation_ended(&3, 3);
    assert_eq!(state.cancel(&3), (false, vec![]));
}

#[test]
fn cancelling_reaches_every_operation() {
    let mut state = fresh();
    state.operation_started(1, 1, "a");
    state.operation_started(1, 2, "b");
    state.operation_started(1, 3, "c");
    state.operation_ended(&1, 2);
    state.operation_ended(&1, 9);
    state.operation_ended(&7, 1);
    assert_eq!(
        state.cancel(&1),
        (true, vec![Operation { id: 1, handle: "a" }, Operation { id: 3, handle: "c" }])
    );
    assert_eq!(state.cancel(&1), (false, vec![]));
}

#[test]
fn known_are_the_last_thousand_new() {
    let mut window = SeenWindow::new();
    let mut new: Vec<(i64, i64)> = Vec::new();
    for i in 0..5000i64 {
        let key = ((i * 7 + i / 3) % 1501, 0);
        let from = new.len().saturating_sub(SEEN_LIMIT);
        let known = new[from..].contains(&key);
        assert_eq!(window.mark(key), !known);
        if !known {
            new.push(key);
        }
    }
    assert!(new.len() > SEEN_LIMIT);
}

#[test]
fn a_choice_is_taken_once() {
    let mut state = fresh();
    state.offer(1, PendingChoice { url: "u".to_string(), title: "t".to_string() });
    state.offer(1, PendingChoice { url: "v".to_string(), title: "w".to_string() });
    let choice = state.take_pending(&1).expect("a choice");
    assert_eq!(choice.url, "v");
    assert_eq!(choice.title, "w");
    assert!(state.take_pending(&1).is_none());
}
