use std::path::PathBuf;

use rsdlp::json::parse_json;
use rsdlp::telegram::dialogue::after_info;
use rsdlp::telegram::dialogue::after_url_check;
use rsdlp::telegram::dialogue::describe_quality;
use rsdlp::telegram::dialogue::handle_callback_query;
use rsdlp::telegram::dialogue::handle_message;
use rsdlp::telegram::dialogue::CallbackStep;
use rsdlp::telegram::dialogue::InfoStep;
use rsdlp::telegram::dialogue::MessageStep;
use rsdlp::telegram::BotState;

fn fresh() -> BotState<u8, ()> {
    BotState::new_with_staging(PathBuf::from("staging"))
}

fn offered() -> BotState<u8, ()> {
    let mut state = fresh();
    let info = parse_json(br#"{"title": "T", "formats": [{"height": 700}]}"#).unwrap();
    match after_info(&mut state, 7, "https://a.b".to_string(), Some(&info)) {
        InfoStep::Menu { text, .. } => assert!(text.contains("/dl_720")),
        InfoStep::Notice { .. } => panic!("expected a menu"),
    }
    state
}

fn text_of(step: MessageStep<u8>) -> String {
    match step {
        MessageStep::Respond { text } => text,
        MessageStep::Cancel { text, .. } => text,
        _ => panic!("expected an answer"),
    }
}

#[test]
fn help_and_nonsense() {
    let mut state = fresh();
    assert!(text_of(handle_message(&mut state, 7, "/start")).starts_with("rsdlp Telegram Bot\n\n"));
    assert!(matches!(handle_message(&mut state, 7, "hm"), MessageStep::Ignore));
}

#[test]
fn cancelling_tells_whether_there_was_anything() {
    let mut state = fresh();
    assert_eq!(text_of(handle_message(&mut state, 7, "/cancel")), "Nothing to cancel.");
    state.operation_started(7, 1, 11);
    state.operation_started(7, 2, 22);
    match handle_message(&mut state, 7, "/cancel") {
        MessageStep::Cancel { abort, text } => {
            let handles: Vec<u8> = abort.into_iter().map(|op| op.handle).collect();
            assert_eq!(handles, vec![11, 22]);
            assert_eq!(text, "❌ Operation cancelled.");
        }
        _ => panic!("expected a cancellation"),
    }
    match handle_callback_query(&mut state, 7, b"cancel") {
        CallbackStep::Cancel { abort, text } => {
            assert!(abort.is_empty());
            assert_eq!(text, "Nothing to cancel.");
        }
        _ => panic!("expected a cancellation"),
    }
}

#[test]
fn an_address_is_checked_and_fetched() {
    let mut state = fresh();
    let url = match handle_message(&mut state, 7, "see https://a.b/c") {
        MessageStep::CheckUrl { url } => url,
        _ => panic!("expected a check"),
    };
    assert_eq!(url, "https://a.b/c");
    let refused: MessageStep<u8> = after_url_check(url.clone(), Some("a.b".to_string()));
    assert_eq!(
        text_of(refused),
        "⚠️ Provider Disabled\n\nThis media provider ('a.b') is currently disabled because \
         processing its streams is a heavy operation that requires intensive CPU and server \
         resources."
    );
    match after_url_check::<u8>(url, None) {
        MessageStep::FetchInfo { url, text } => {
            assert_eq!(url, "https://a.b/c");
            assert_eq!(text, "🔍 Fetching qualities...");
        }
        _ => panic!("expected a fetch"),
    }
}

#[test]
fn reports_without_anything_to_play() {
    let mut state = fresh();
    match after_info(&mut state, 7, "u".to_string(), None) {
        InfoStep::Notice { text } => assert_eq!(text, "Failed to fetch media metadata."),
        InfoStep::Menu { .. } => panic!("expected a notice"),
    }
    let info = parse_json(b"{}").unwrap();
    match after_info(&mut state, 7, "u".to_string(), Some(&info)) {
        InfoStep::Notice { text } => assert_eq!(text, "No playable formats found for this URL."),
        InfoStep::Menu { .. } => panic!("expected a notice"),
    }
    assert!(state.take_pending(&7).is_none());
}

#[test]
fn a_command_starts_the_download_once() {
    let mut state = offered();
    match handle_message(&mut state, 7, "/dl_720") {
        MessageStep::Start { job } => {
            assert_eq!(job.pending.url, "https://a.b");
            assert_eq!(job.pending.title, "T");
            assert_eq!(job.res, Some(720));
            assert_eq!(job.abr, None);
            assert_eq!(job.desc, "720p");
            assert_eq!(job.request().sort.as_deref(), Some("res:720"));
        }
        _ => panic!("expected a download"),
    }
    assert_eq!(
        text_of(handle_message(&mut state, 7, "/dl_720")),
        "No pending media URL. Send a URL first!"
    );
}

#[test]
fn a_button_starts_the_download_once() {
    let mut state = offered();
    match handle_callback_query(&mut state, 7, b"dl_audio:128") {
        CallbackStep::Start { job } => {
            assert_eq!(job.pending.url, "https://a.b");
            assert_eq!(job.abr, Some(128));
            assert_eq!(job.desc, "128 kbps audio");
            assert_eq!(job.request().sort.as_deref(), Some("abr:128"));
        }
        _ => panic!("expected a download"),
    }
    match handle_callback_query(&mut state, 7, b"dl:best") {
        CallbackStep::Alert { text } => {
            assert_eq!(text, "No pending media URL. Send a URL first!")
        }
        _ => panic!("expected an alert"),
    }
    assert!(matches!(
        handle_callback_query(&mut state, 7, b"nonsense"),
        CallbackStep::Acknowledge
    ));
}

#[test]
fn a_choice_belongs_to_its_peer() {
    let mut state = offered();
    assert_eq!(
        text_of(handle_message(&mut state, 8, "/dl_720")),
        "No pending media URL. Send a URL first!"
    );
    assert!(matches!(handle_message(&mut state, 7, "/dl_720"), MessageStep::Start { .. }));
}

#[test]
fn names_of_qualities() {
    assert_eq!(describe_quality(Some(720), Some(128)), "720p");
    assert_eq!(describe_quality(None, Some(128)), "128 kbps audio");
    assert_eq!(describe_quality(None, None), "best quality");
}
