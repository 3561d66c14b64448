//! The commands of the bot, as messages and as button payloads.

use vstd::prelude::*;
use vstd::utf8::decode_utf8;
use vstd::utf8::valid_utf8;

use crate::numeral::parse_u64;
use crate::numeral::u64_text;
use crate::text::after_prefix;
use crate::text::has_prefix;
use crate::text::same_text;
use crate::text::starts_with;
use crate::text::strip_prefix;
use crate::text::texts;
use crate::text::trim;
use crate::text::trimmed;
use crate::text::utf8_text;
use crate::text::words;
use crate::text::words_of;

verus! {

/// What a user asks of the bot.
#[derive(Debug, PartialEq, Clone)]
pub enum TelegramAction {
    Help,
    Cancel,
    DownloadUrl { url: String },
    SelectQuality { res: Option<u64>, abr: Option<u64> },
    Unknown,
}

/// The content of an action.
pub ghost enum Action {
    Help,
    Cancel,
    DownloadUrl(Seq<char>),
    SelectQuality(Option<u64>, Option<u64>),
    Unknown,
}

impl View for TelegramAction {
    type V = Action;

    open spec fn view(&self) -> Action {
        match *self {
            TelegramAction::Help => Action::Help,
            TelegramAction::Cancel => Action::Cancel,
            TelegramAction::DownloadUrl { url } => Action::DownloadUrl(url@),
            TelegramAction::SelectQuality { res, abr } => Action::SelectQuality(res, abr),
            TelegramAction::Unknown => Action::Unknown,
        }
    }
}

/// A word that begins like a web address.
pub open spec fn is_url(word: Seq<char>) -> bool {
    has_prefix(word, "http://"@) || has_prefix(word, "https://"@)
}

/// The first web address among `ws`.
pub open spec fn first_url(ws: Seq<Seq<char>>) -> Option<Seq<char>>
    decreases ws.len(),
{
    if ws.len() == 0 {
        None
    } else if is_url(ws[0]) {
        Some(ws[0])
    } else {
        first_url(ws.drop_first())
    }
}

/// The number that follows `p` in `s`.
pub open spec fn number_after(s: Seq<char>, p: Seq<char>) -> Option<u64> {
    match after_prefix(s, p) {
        Some(rest) => u64_text(rest),
        None => None,
    }
}

/// The choice that a `/dl` command with separate words makes.
pub open spec fn spaced_choice(ws: Seq<Seq<char>>) -> Option<Action> {
    if ws.len() == 1 {
        match u64_text(ws[0]) {
            Some(n) => Some(Action::SelectQuality(Some(n), None)),
            None => None,
        }
    } else if ws.len() == 2 && ws[0] == "audio"@ {
        match u64_text(ws[1]) {
            Some(n) => Some(Action::SelectQuality(None, Some(n))),
            None => None,
        }
    } else {
        None
    }
}

/// The choice that a `/dl` command makes, if it makes one.
pub open spec fn download_choice(t: Seq<char>) -> Option<Action> {
    if t == "/dl_best"@ {
        Some(Action::SelectQuality(None, None))
    } else if number_after(t, "/dl_audio_"@) is Some {
        Some(Action::SelectQuality(None, number_after(t, "/dl_audio_"@)))
    } else if number_after(t, "/dl_"@) is Some {
        Some(Action::SelectQuality(number_after(t, "/dl_"@), None))
    } else {
        match after_prefix(t, "/dl "@) {
            Some(rest) => spaced_choice(words_of(rest)),
            None => None,
        }
    }
}

/// The action that a message asks for.
pub open spec fn message_action(text: Seq<char>) -> Action {
    let t = trimmed(text);
    if t == "/start"@ || t == "/help"@ {
        Action::Help
    } else if t == "/cancel"@ {
        Action::Cancel
    } else {
        match download_choice(t) {
            Some(choice) => choice,
            None => match first_url(words_of(t)) {
                Some(url) => Action::DownloadUrl(url),
                None => Action::Unknown,
            },
        }
    }
}

/// The action that a button payload asks for, read as text.
pub open spec fn callback_text_action(s: Seq<char>) -> Action {
    if s == "cancel"@ {
        Action::Cancel
    } else if s == "dl:best"@ {
        Action::SelectQuality(None, None)
    } else if number_after(s, "dl:"@) is Some {
        Action::SelectQuality(number_after(s, "dl:"@), None)
    } else if number_after(s, "dl_audio:"@) is Some {
        Action::SelectQuality(None, number_after(s, "dl_audio:"@))
    } else {
        Action::Unknown
    }
}

/// The action that a button payload asks for.
pub open spec fn callback_action(data: Seq<u8>) -> Action {
    if valid_utf8(data) {
        callback_text_action(decode_utf8(data))
    } else {
        Action::Unknown
    }
}

/// Extracts the first http or https address among the words of `text`.
pub fn find_url(text: &str) -> (r: Option<String>)
    ensures
        match r {
            Some(url) => first_url(words_of(text@)) == Some(url@),
            None => first_url(words_of(text@)) is None,
        },
{
    let found = words(text);
    let ghost ws = texts(found@);
    let mut i: usize = 0;
    assert(ws.skip(0) =~= ws);
    while i < found.len()
        invariant
            i <= found@.len(),
            ws == texts(found@),
            ws == words_of(text@),
            first_url(ws) == first_url(ws.skip(i as int)),
        decreases found@.len() - i,
    {
        let word = found[i].as_str();
        assert(ws.skip(i as int)[0] == word@);
        if starts_with(word, "http://") || starts_with(word, "https://") {
            return Some(found[i].clone());
        }
        assert(ws.skip(i as int).drop_first() =~= ws.skip(i + 1));
        i += 1;
    }
    None
}

fn parse_number_after(s: &str, p: &str) -> (r: Option<u64>)
    ensures
        r == number_after(s@, p@),
{
    match strip_prefix(s, p) {
        Some(rest) => parse_u64(rest),
        None => None,
    }
}

fn parse_spaced_choice(rest: &str) -> (r: Option<TelegramAction>)
    ensures
        match r {
            Some(action) => spaced_choice(words_of(rest@)) == Some(action@),
            None => spaced_choice(words_of(rest@)) is None,
        },
{
    let parts = words(rest);
    let ghost ws = texts(parts@);
    if parts.len() == 1 {
        assert(ws[0] == parts@[0]@);
        if let Some(num) = parse_u64(parts[0].as_str()) {
            return Some(TelegramAction::SelectQuality { res: Some(num), abr: None });
        }
    } else if parts.len() == 2 {
        assert(ws[0] == parts@[0]@ && ws[1] == parts@[1]@);
        if same_text(parts[0].as_str(), "audio") {
            if let Some(num) = parse_u64(parts[1].as_str()) {
                return Some(TelegramAction::SelectQuality { res: None, abr: Some(num) });
            }
        }
    }
    None
}

/// Reads the action that a message asks for.
pub fn parse_message_action(text: &str) -> (r: TelegramAction)
    ensures
        r@ == message_action(text@),
{
    let trimmed_text = trim(text);
    if same_text(trimmed_text, "/start") || same_text(trimmed_text, "/help") {
        return TelegramAction::Help;
    }
    if same_text(trimmed_text, "/cancel") {
        return TelegramAction::Cancel;
    }
    if same_text(trimmed_text, "/dl_best") {
        return TelegramAction::SelectQuality { res: None, abr: None };
    }
    if let Some(abr) = parse_number_after(trimmed_text, "/dl_audio_") {
        return TelegramAction::SelectQuality { res: None, abr: Some(abr) };
    }
    if let Some(res) = parse_number_after(trimmed_text, "/dl_") {
        return TelegramAction::SelectQuality { res: Some(res), abr: None };
    }
    if let Some(rest) = strip_prefix(trimmed_text, "/dl ") {
        if let Some(action) = parse_spaced_choice(rest) {
            return action;
        }
    }
    match find_url(trimmed_text) {
        Some(url) => TelegramAction::DownloadUrl { url },
        None => TelegramAction::Unknown,
    }
}

/// Reads the action that a button payload asks for, given as text.
pub fn parse_callback_text(s: &str) -> (r: TelegramAction)
    ensures
        r@ == callback_text_action(s@),
{
    if same_text(s, "cancel") {
        return TelegramAction::Cancel;
    }
    if same_text(s, "dl:best") {
        return TelegramAction::SelectQuality { res: None, abr: None };
    }
    if let Some(res) = parse_number_after(s, "dl:") {
        return TelegramAction::SelectQuality { res: Some(res), abr: None };
    }
    if let Some(abr) = parse_number_after(s, "dl_audio:") {
        return TelegramAction::SelectQuality { res: None, abr: Some(abr) };
    }
    TelegramAction::Unknown
}

/// Reads the action that a button payload asks for.
pub fn parse_callback_action(data: &[u8]) -> (r: TelegramAction)
    ensures
        r@ == callback_action(data@),
{
    match utf8_text(data) {
        Some(s) => parse_callback_text(s),
        None => TelegramAction::Unknown,
    }
}

} // verus!
