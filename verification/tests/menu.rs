use grammers_client::grammers_tl_types::enums;
use grammers_client::reply_markup;
use grammers_client::types::reply_markup::ReplyMarkup;
use rsdlp::telegram::build_qualities_inline_markup;
use rsdlp::telegram::cancel_markup;
use rsdlp::telegram::format_qualities_menu;
use rsdlp::telegram::menu::qualities_buttons;
use rsdlp::telegram::parse_callback_action;
use rsdlp::telegram::TelegramAction;
use rsdlp::ytdlp::Qualities;

fn rows(markup: &reply_markup::Inline) -> Vec<Vec<(String, Vec<u8>)>> {
    let enums::ReplyMarkup::ReplyInlineMarkup(inline) = markup.to_reply_markup().raw else {
        panic!("not an inline keyboard");
    };
    let mut out = Vec::new();
    for row in inline.rows {
        let enums::KeyboardButtonRow::Row(row) = row;
        let mut buttons = Vec::new();
        for button in row.buttons {
            let enums::KeyboardButton::Callback(callback) = button else {
                panic!("not a callback button");
            };
            buttons.push((callback.text, callback.data));
        }
        out.push(buttons);
    }
    out
}

fn button(text: &str, data: &str) -> (String, Vec<u8>) {
    (text.to_string(), data.as_bytes().to_vec())
}

#[test]
fn test_format_qualities_menu() {
    let qualities = Qualities { video: vec![360, 720, 1080], audio: vec![128, 320] };
    let menu = format_qualities_menu("Test Title", &qualities);
    assert!(menu.contains("🎬 Test Title"));
    assert!(menu.contains("/dl_1080 — 1080p"));
    assert!(menu.contains("/dl_720 — 720p"));
    assert!(menu.contains("/dl_audio_320 — 320 kbps"));
    assert!(menu.contains("/dl_best"));
    assert!(menu.contains("/cancel"));
}

#[test]
fn the_whole_menu() {
    let qualities = Qualities { video: vec![360, 1080], audio: vec![128, 320] };
    assert_eq!(
        format_qualities_menu("T", &qualities),
        "🎬 T\n\nChoose quality to download:\n\n\
         📹 Video:\n  /dl_1080 — 1080p\n  /dl_360 — 360p\n\n\
         🎵 Audio only:\n  /dl_audio_320 — 320 kbps\n  /dl_audio_128 — 128 kbps\n\n\
         ⚡ /dl_best — Best available\n❌ /cancel — Cancel"
    );
    let nothing = Qualities { video: vec![], audio: vec![] };
    assert_eq!(
        format_qualities_menu("", &nothing),
        "🎬 \n\nChoose quality to download:\n\n⚡ /dl_best — Best available\n❌ /cancel — Cancel"
    );
}

#[test]
fn test_build_qualities_inline_markup() {
    let qualities = Qualities { video: vec![360, 720, 1080], audio: vec![128, 320] };
    let _markup = build_qualities_inline_markup(&qualities);
}

#[test]
fn test_cancel_markup() {
    let _markup = cancel_markup();
}

#[test]
fn the_keyboard_holds_its_rows() {
    let qualities = Qualities { video: vec![144, 360, 720, 1080], audio: vec![128, 320] };
    assert_eq!(
        rows(&build_qualities_inline_markup(&qualities)),
        vec![
            vec![button("1080p", "dl:1080"), button("720p", "dl:720"), button("360p", "dl:360")],
            vec![button("144p", "dl:144")],
            vec![button("🎵 320k", "dl_audio:320"), button("🎵 128k", "dl_audio:128")],
            vec![button("⚡ Best", "dl:best"), button("❌ Cancel", "cancel")],
        ]
    );
    assert_eq!(rows(&cancel_markup()), vec![vec![button("❌ Cancel", "cancel")]]);
    let nothing = Qualities { video: vec![], audio: vec![] };
    assert_eq!(
        rows(&build_qualities_inline_markup(&nothing)),
        vec![vec![button("⚡ Best", "dl:best"), button("❌ Cancel", "cancel")]]
    );
}

#[test]
fn rows_of_three_are_full() {
    let qualities = Qualities { video: vec![1, 2, 3, 4, 5, 6], audio: vec![7] };
    let rows = qualities_buttons(&qualities);
    let sizes: Vec<usize> = rows.iter().map(|row| row.len()).collect();
    assert_eq!(sizes, vec![3, 3, 1, 2]);
}

#[test]
fn every_button_is_answered() {
    let qualities = Qualities { video: vec![144, 240, 360, 480], audio: vec![128, 500] };
    let mut chosen = Vec::new();
    for row in rows(&build_qualities_inline_markup(&qualities)) {
        for (_, data) in row {
            chosen.push(parse_callback_action(&data));
        }
    }
    for v in &qualities.video {
        assert!(chosen.contains(&TelegramAction::SelectQuality { res: Some(*v), abr: None }));
    }
    for a in &qualities.audio {
        assert!(chosen.contains(&TelegramAction::SelectQuality { res: None, abr: Some(*a) }));
    }
    assert!(!chosen.contains(&TelegramAction::Unknown));
    assert!(chosen.contains(&TelegramAction::Cancel));
}
