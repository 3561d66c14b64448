use rsdlp::telegram::find_url;
use rsdlp::telegram::parse_callback_action;
use rsdlp::telegram::parse_message_action;
use rsdlp::telegram::TelegramAction;

fn quality(res: Option<u64>, abr: Option<u64>) -> TelegramAction {
    TelegramAction::SelectQuality { res, abr }
}

#[test]
fn test_parse_message_action() {
    assert_eq!(parse_message_action("/start"), TelegramAction::Help);
    assert_eq!(parse_message_action("/cancel"), TelegramAction::Cancel);
    assert_eq!(
        parse_message_action("https://www.youtube.com/watch?v=dQw4w9WgXcQ"),
        TelegramAction::DownloadUrl {
            url: "https://www.youtube.com/watch?v=dQw4w9WgXcQ".to_string()
        }
    );
    assert_eq!(
        parse_message_action("Check this: https://example.com/video.mp4 cool"),
        TelegramAction::DownloadUrl { url: "https://example.com/video.mp4".to_string() }
    );
    assert_eq!(
        parse_message_action("/dl_720"),
        TelegramAction::SelectQuality { res: Some(720), abr: None }
    );
    assert_eq!(
        parse_message_action("/dl 1080"),
        TelegramAction::SelectQuality { res: Some(1080), abr: None }
    );
    assert_eq!(
        parse_message_action("/dl_audio_320"),
        TelegramAction::SelectQuality { res: None, abr: Some(320) }
    );
    assert_eq!(
        parse_message_action("/dl_best"),
        TelegramAction::SelectQuality { res: None, abr: None }
    );
}

#[test]
fn test_parse_callback_action() {
    assert_eq!(parse_callback_action(b"cancel"), TelegramAction::Cancel);
    assert_eq!(
        parse_callback_action(b"dl:best"),
        TelegramAction::SelectQuality { res: None, abr: None }
    );
    assert_eq!(
        parse_callback_action(b"dl:1080"),
        TelegramAction::SelectQuality { res: Some(1080), abr: None }
    );
    assert_eq!(
        parse_callback_action(b"dl_audio:320"),
        TelegramAction::SelectQuality { res: None, abr: Some(320) }
    );
    assert_eq!(parse_callback_action(b"unknown_cmd"), TelegramAction::Unknown);
}

#[test]
fn messages_with_other_forms() {
    assert_eq!(parse_message_action("/help"), TelegramAction::Help);
    assert_eq!(parse_message_action("  /help \n"), TelegramAction::Help);
    assert_eq!(parse_message_action(""), TelegramAction::Unknown);
    assert_eq!(parse_message_action(" \t\u{3000}"), TelegramAction::Unknown);
    assert_eq!(parse_message_action("hello"), TelegramAction::Unknown);
    assert_eq!(parse_message_action("/dl audio 128"), quality(None, Some(128)));
    assert_eq!(parse_message_action("/dl   audio   128 "), quality(None, Some(128)));
    assert_eq!(parse_message_action("/dl video 128"), TelegramAction::Unknown);
    assert_eq!(parse_message_action("/dl 1 2 3"), TelegramAction::Unknown);
    assert_eq!(parse_message_action("/dl_+7"), quality(Some(7), None));
    assert_eq!(parse_message_action("/dl_-7"), TelegramAction::Unknown);
    assert_eq!(parse_message_action("/dl_"), TelegramAction::Unknown);
    assert_eq!(parse_message_action("/dl_18446744073709551615"), quality(Some(u64::MAX), None));
    assert_eq!(parse_message_action("/dl_18446744073709551616"), TelegramAction::Unknown);
    assert_eq!(parse_message_action("/dl_audio_"), TelegramAction::Unknown);
    assert_eq!(
        parse_message_action("/dl_x http://a.b"),
        TelegramAction::DownloadUrl { url: "http://a.b".to_string() }
    );
}

#[test]
fn addresses_are_words() {
    assert_eq!(find_url("see http://a.b/c and https://d.e"), Some("http://a.b/c".to_string()));
    assert_eq!(find_url("see\u{a0}https://d.e\u{2003}now"), Some("https://d.e".to_string()));
    assert_eq!(find_url("xhttp://a.b"), None);
    assert_eq!(find_url("HTTP://a.b"), None);
    assert_eq!(find_url("http://"), Some("http://".to_string()));
    assert_eq!(find_url(""), None);
}

#[test]
fn downloads_are_asked_for_by_an_address() {
    let samples = [
        "/start", "/dl_720", "/dl_best", "/dl 720", "/dl audio 128", "/dl http://a.b", "hello",
        "/dl_720 http://a.b", " https://a.b ", "/cancel https://a.b", "/dl audio https://a.b",
    ];
    for text in samples {
        let has_address = text
            .split_whitespace()
            .any(|w| w.starts_with("http://") || w.starts_with("https://"));
        let asks = matches!(parse_message_action(text), TelegramAction::DownloadUrl { .. });
        assert_eq!(asks, has_address, "{text}");
    }
}

#[test]
fn payloads_that_are_not_text() {
    assert_eq!(parse_callback_action(&[0xff, 0xfe]), TelegramAction::Unknown);
    assert_eq!(parse_callback_action(b""), TelegramAction::Unknown);
    assert_eq!(parse_callback_action(b" cancel"), TelegramAction::Unknown);
    assert_eq!(parse_callback_action(b"dl:"), TelegramAction::Unknown);
    assert_eq!(parse_callback_action(b"dl_audio:x"), TelegramAction::Unknown);
    assert_eq!(parse_callback_action("dl:１".as_bytes()), TelegramAction::Unknown);
}

#[test]
fn commands_and_buttons_agree() {
    for n in [0u64, 1, 9, 10, 144, 1080, u64::MAX] {
        assert_eq!(parse_message_action(&format!("/dl_{n}")), quality(Some(n), None));
        assert_eq!(parse_callback_action(format!("dl:{n}").as_bytes()), quality(Some(n), None));
        assert_eq!(parse_message_action(&format!("/dl_audio_{n}")), quality(None, Some(n)));
        assert_eq!(
            parse_callback_action(format!("dl_audio:{n}").as_bytes()),
            quality(None, Some(n))
        );
    }
}
