//! What holds between the parts of the bot.

use vstd::prelude::*;
use vstd::utf8::decode_utf8;
use vstd::utf8::encode_utf8;
use vstd::utf8::valid_utf8;

use crate::numeral::all_digits;
use crate::numeral::decimal;
use crate::numeral::is_digit;
use crate::numeral::law_u64_round_trip;
use crate::numeral::lemma_decimal_digits;
use crate::numeral::u64_text;
use crate::numeral::unsigned_part;
use crate::telegram::actions::Action;
use crate::telegram::actions::TelegramAction;
use crate::telegram::actions::callback_action;
use crate::telegram::actions::callback_text_action;
use crate::telegram::actions::first_url;
use crate::telegram::actions::is_url;
use crate::telegram::actions::message_action;
use crate::telegram::actions::number_after;
use crate::telegram::actions::spaced_choice;
use crate::telegram::dialogue::CallbackStep;
use crate::telegram::dialogue::InfoStep;
use crate::telegram::dialogue::MessageStep;
use crate::telegram::dialogue::answers_callback;
use crate::telegram::dialogue::answers_message;
use crate::telegram::dialogue::disabled_text;
use crate::telegram::dialogue::fetching_text;
use crate::telegram::dialogue::has_work;
use crate::telegram::dialogue::is_cancelled;
use crate::telegram::dialogue::is_chosen;
use crate::telegram::dialogue::is_offered;
use crate::telegram::dialogue::no_pending_text;
use crate::telegram::dialogue::presents;
use crate::telegram::dialogue::quality_name;
use crate::telegram::jobs::job_sort;
use crate::telegram::menu::Button;
use crate::telegram::menu::InlineButton;
use crate::telegram::menu::audio_button;
use crate::telegram::menu::audio_line;
use crate::telegram::menu::best_button;
use crate::telegram::menu::buttons_reversed;
use crate::telegram::menu::cancel_button;
use crate::telegram::menu::cancel_keyboard;
use crate::telegram::menu::encoded;
use crate::telegram::menu::in_rows;
use crate::telegram::menu::keyboard_content;
use crate::telegram::menu::lines_reversed;
use crate::telegram::menu::markup_rows;
use crate::telegram::menu::menu_text;
use crate::telegram::menu::qualities_keyboard;
use crate::telegram::menu::section;
use crate::telegram::menu::video_button;
use crate::telegram::menu::video_line;
use crate::telegram::state::BotState;
use crate::telegram::state::Operation;
use crate::telegram::state::SEEN_LIMIT;
use crate::telegram::state::marked;
use crate::telegram::state::without;
use crate::text::after_prefix;
use crate::text::all_space;
use crate::text::has_prefix;
use crate::text::is_space;
use crate::text::law_prefix;
use crate::text::law_trimmed;
use crate::text::law_words;
use crate::text::lemma_word_len;
use crate::text::trimmed;
use crate::text::word_len;
use crate::text::words_of;
use crate::ytdlp::Qualities;

verus! {

proof fn lemma_numeral_ends(n: u64)
    ensures
        decimal(n as nat).len() > 0,
        is_digit(decimal(n as nat)[0]),
        is_digit(decimal(n as nat).last()),
{
    lemma_decimal_digits(n as nat);
}

proof fn lemma_trimmed_command(t: Seq<char>)
    requires
        t.len() > 0,
        !is_space(t[0]),
        !is_space(t.last()),
    ensures
        trimmed(t) == t,
{
}

proof fn lemma_number_after(p: Seq<char>, n: u64)
    ensures
        number_after(p + decimal(n as nat), p) == Some(n),
{
    let t = p + decimal(n as nat);
    assert(t.take(p.len() as int) =~= p);
    assert(t.skip(p.len() as int) =~= decimal(n as nat));
    law_u64_round_trip(n);
}

/// The command that the menu shows for a resolution asks for that resolution.
pub proof fn law_video_command(n: u64)
    ensures
        message_action("/dl_"@ + decimal(n as nat)) == Action::SelectQuality(Some(n), None),
{
    reveal_strlit("/dl_");
    reveal_strlit("/start");
    reveal_strlit("/help");
    reveal_strlit("/cancel");
    reveal_strlit("/dl_best");
    reveal_strlit("/dl_audio_");
    lemma_numeral_ends(n);
    lemma_number_after("/dl_"@, n);
    let d = decimal(n as nat);
    let t = "/dl_"@ + d;
    assert(t[1] == 'd' && t[4] == d[0] && t.last() == d.last());
    lemma_trimmed_command(t);
    assert("/start"@[1] == 's');
    assert("/help"@[1] == 'h');
    assert("/cancel"@[1] == 'c');
    assert("/dl_best"@[4] == 'b');
    assert(number_after(t, "/dl_audio_"@) is None) by {
        if has_prefix(t, "/dl_audio_"@) {
            assert(t.take(10)[4] == 'a');
        }
    }
}

/// The command that the menu shows for a bitrate asks for that bitrate.
pub proof fn law_audio_command(n: u64)
    ensures
        message_action("/dl_audio_"@ + decimal(n as nat)) == Action::SelectQuality(None, Some(n)),
{
    reveal_strlit("/start");
    reveal_strlit("/help");
    reveal_strlit("/cancel");
    reveal_strlit("/dl_best");
    reveal_strlit("/dl_audio_");
    lemma_numeral_ends(n);
    lemma_number_after("/dl_audio_"@, n);
    let d = decimal(n as nat);
    let t = "/dl_audio_"@ + d;
    assert(t[1] == 'd' && t[4] == 'a' && t.last() == d.last());
    lemma_trimmed_command(t);
    assert("/start"@[1] == 's');
    assert("/help"@[1] == 'h');
    assert("/cancel"@[1] == 'c');
    assert("/dl_best"@[4] == 'b');
}

/// The other two commands of the menu ask for the best quality and cancel.
pub proof fn law_fixed_commands()
    ensures
        message_action("/dl_best"@) == Action::SelectQuality(None, None),
        message_action("/cancel"@) == Action::Cancel,
{
    reveal_strlit("/start");
    reveal_strlit("/help");
    reveal_strlit("/cancel");
    reveal_strlit("/dl_best");
    lemma_trimmed_command("/dl_best"@);
    lemma_trimmed_command("/cancel"@);
    assert("/start"@[1] == 's');
    assert("/help"@[1] == 'h');
    assert("/cancel"@[1] == 'c');
    assert("/dl_best"@[1] == 'd');
}

/// The bytes that a button sends are read as the text that they encode.
pub proof fn law_payload_text(data: Seq<char>)
    ensures
        callback_action(encode_utf8(data)) == callback_text_action(data),
{
    vstd::utf8::encode_utf8_valid_utf8(data);
    vstd::utf8::encode_utf8_decode_utf8(data);
}

/// The button for a resolution asks for that resolution.
pub proof fn law_video_button(n: u64)
    ensures
        callback_action(encode_utf8(video_button(n).data)) == Action::SelectQuality(Some(n), None),
{
    reveal_strlit("dl:");
    reveal_strlit("cancel");
    reveal_strlit("dl:best");
    lemma_numeral_ends(n);
    lemma_number_after("dl:"@, n);
    let d = decimal(n as nat);
    let t = "dl:"@ + d;
    law_payload_text(t);
    assert(t[0] == 'd' && t[3] == d[0]);
    assert("cancel"@[0] == 'c');
    assert("dl:best"@[3] == 'b');
}

/// The button for a bitrate asks for that bitrate.
pub proof fn law_audio_button(n: u64)
    ensures
        callback_action(encode_utf8(audio_button(n).data)) == Action::SelectQuality(None, Some(n)),
{
    reveal_strlit("dl:");
    reveal_strlit("cancel");
    reveal_strlit("dl:best");
    reveal_strlit("dl_audio:");
    lemma_numeral_ends(n);
    lemma_number_after("dl_audio:"@, n);
    let t = "dl_audio:"@ + decimal(n as nat);
    law_payload_text(t);
    assert(t[0] == 'd' && t[2] == '_');
    assert("cancel"@[0] == 'c');
    assert("dl:best"@[2] == ':');
    assert(number_after(t, "dl:"@) is None) by {
        if has_prefix(t, "dl:"@) {
            assert(t.take(3)[2] == ':');
        }
    }
}

/// The other two buttons ask for the best quality and cancel.
pub proof fn law_fixed_buttons()
    ensures
        callback_action(encode_utf8(best_button().data)) == Action::SelectQuality(None, None),
        callback_action(encode_utf8(cancel_button().data)) == Action::Cancel,
{
    reveal_strlit("cancel");
    reveal_strlit("dl:best");
    law_payload_text("dl:best"@);
    law_payload_text("cancel"@);
    assert("cancel"@[0] == 'c');
    assert("dl:best"@[0] == 'd');
}

// ---------------------------------------------------------------------------
// Addresses
// ---------------------------------------------------------------------------

/// `s` holds no white space.
pub open spec fn is_unbroken(s: Seq<char>) -> bool {
    forall|i: int| 0 <= i < s.len() ==> !is_space(#[trigger] s[i])
}

proof fn lemma_words_unbroken(s: Seq<char>, k: int)
    requires
        0 <= k < words_of(s).len(),
    ensures
        is_unbroken(words_of(s)[k]),
    decreases s.len(),
{
    if is_space(s[0]) {
        lemma_words_unbroken(s.drop_first(), k);
    } else {
        lemma_word_len(s);
        if k > 0 {
            lemma_words_unbroken(s.skip(word_len(s) as int), k - 1);
        }
    }
}

proof fn lemma_unbroken_word(s: Seq<char>)
    requires
        is_unbroken(s),
    ensures
        word_len(s) == s.len(),
    decreases s.len(),
{
    if s.len() > 0 {
        lemma_unbroken_word(s.drop_first());
    }
}

proof fn lemma_first_url(ws: Seq<Seq<char>>)
    ensures
        first_url(ws) matches Some(url) ==> is_url(url) && ws.contains(url),
    decreases ws.len(),
{
    if ws.len() > 0 {
        if is_url(ws[0]) {
            assert(ws.contains(ws[0]));
        } else {
            let rest = ws.drop_first();
            lemma_first_url(rest);
            if let Some(url) = first_url(rest) {
                let k = choose|k: int| 0 <= k < rest.len() && rest[k] == url;
                assert(ws[k + 1] == url);
            }
        }
    }
}

/// A message that is an address asks for its download.
pub proof fn law_url_is_answered(url: Seq<char>)
    requires
        is_url(url),
        is_unbroken(url),
    ensures
        message_action(url) == Action::DownloadUrl(url),
{
    reveal_strlit("http://");
    reveal_strlit("https://");
    reveal_strlit("/start");
    reveal_strlit("/help");
    reveal_strlit("/cancel");
    reveal_strlit("/dl_best");
    reveal_strlit("/dl_audio_");
    reveal_strlit("/dl_");
    reveal_strlit("/dl ");
    assert(url[0] == 'h') by {
        if has_prefix(url, "http://"@) {
            assert(url.take(7)[0] == 'h');
        } else {
            assert(url.take(8)[0] == 'h');
        }
    }
    lemma_trimmed_command(url);
    assert("/start"@[0] == '/' && "/help"@[0] == '/' && "/cancel"@[0] == '/' && "/dl_best"@[0]
        == '/');
    assert(after_prefix(url, "/dl_audio_"@) is None) by {
        if has_prefix(url, "/dl_audio_"@) {
            assert(url.take(10)[0] == '/');
        }
    }
    assert(after_prefix(url, "/dl_"@) is None) by {
        if has_prefix(url, "/dl_"@) {
            assert(url.take(4)[0] == '/');
        }
    }
    assert(after_prefix(url, "/dl "@) is None) by {
        if has_prefix(url, "/dl "@) {
            assert(url.take(4)[0] == '/');
        }
    }
    lemma_unbroken_word(url);
    assert(url.take(url.len() as int) =~= url);
    assert(words_of(url)[0] == url);
}

/// The address that a message asks for is one of its words.
pub proof fn law_url_is_a_word(text: Seq<char>, url: Seq<char>)
    requires
        message_action(text) == Action::DownloadUrl(url),
    ensures
        is_url(url),
        is_unbroken(url),
        words_of(trimmed(text)).contains(url),
{
    let ws = words_of(trimmed(text));
    lemma_first_url(ws);
    let k = choose|k: int| 0 <= k < ws.len() && ws[k] == url;
    lemma_words_unbroken(trimmed(text), k);
}

proof fn lemma_has_url(ws: Seq<Seq<char>>)
    ensures
        first_url(ws) is Some <==> exists|k: int| 0 <= k < ws.len() && is_url(#[trigger] ws[k]),
    decreases ws.len(),
{
    if ws.len() > 0 {
        let rest = ws.drop_first();
        lemma_has_url(rest);
        if is_url(ws[0]) {
        } else if exists|k: int| 0 <= k < ws.len() && is_url(#[trigger] ws[k]) {
            let k = choose|k: int| 0 <= k < ws.len() && is_url(#[trigger] ws[k]);
            assert(rest[k - 1] == ws[k]);
        } else if first_url(rest) is Some {
            let k = choose|k: int| 0 <= k < rest.len() && is_url(#[trigger] rest[k]);
            assert(ws[k + 1] == rest[k]);
        }
    }
}

proof fn lemma_url_start(word: Seq<char>)
    requires
        is_url(word),
    ensures
        word.len() > 0,
        word[0] == 'h',
{
    reveal_strlit("http://");
    reveal_strlit("https://");
    if has_prefix(word, "http://"@) {
        assert(word.take(7)[0] == 'h');
    } else {
        assert(word.take(8)[0] == 'h');
    }
}

proof fn lemma_one_word(s: Seq<char>)
    requires
        is_unbroken(s),
        s.len() > 0,
        s[0] != 'h',
    ensures
        first_url(words_of(s)) is None,
{
    lemma_unbroken_word(s);
    assert(s.take(s.len() as int) =~= s);
    let rest = s.skip(s.len() as int);
    assert(rest =~= Seq::empty());
    let ws = words_of(s);
    assert(words_of(rest) =~= Seq::empty());
    assert(ws =~= seq![s]);
    lemma_has_url(ws);
    if first_url(ws) is Some {
        let k = choose|k: int| 0 <= k < ws.len() && is_url(#[trigger] ws[k]);
        lemma_url_start(ws[k]);
    }
}

proof fn lemma_number_text(s: Seq<char>)
    requires
        u64_text(s) is Some,
    ensures
        s.len() > 0,
        is_unbroken(s),
        s[0] != 'h',
{
    let digits = unsigned_part(s, '+');
    assert(all_digits(digits));
    assert forall|i: int| 0 <= i < s.len() implies !is_space(#[trigger] s[i]) by {
        if digits == s {
            assert(is_digit(digits[i]));
        } else if i > 0 {
            assert(s[i] == digits[i - 1]);
            assert(is_digit(digits[i - 1]));
        }
    }
    if digits == s {
        assert(is_digit(digits[0]));
    }
}

proof fn lemma_number_command(t: Seq<char>, p: Seq<char>)
    requires
        number_after(t, p) is Some,
        p.len() > 0,
        p[0] == '/',
        is_unbroken(p),
    ensures
        first_url(words_of(t)) is None,
{
    let rest = t.skip(p.len() as int);
    lemma_number_text(rest);
    assert forall|i: int| 0 <= i < t.len() implies !is_space(#[trigger] t[i]) by {
        if i < p.len() {
            assert(t.take(p.len() as int)[i] == p[i]);
        } else {
            assert(t[i] == rest[i - p.len()]);
        }
    }
    assert(t.take(p.len() as int)[0] == '/');
    lemma_one_word(t);
}

proof fn lemma_spaced_command(t: Seq<char>)
    requires
        after_prefix(t, "/dl "@) matches Some(rest) && spaced_choice(words_of(rest)) is Some,
    ensures
        first_url(words_of(t)) is None,
{
    reveal_strlit("/dl ");
    reveal_strlit("audio");
    let p = "/dl "@;
    let rest = t.skip(4);
    let head = t.take(3);
    let tail = t.skip(3);
    assert(t.take(4) == p);
    assert(t[0] == '/' && t[1] == 'd' && t[2] == 'l' && t[3] == ' ') by {
        assert(t.take(4)[0] == p[0] && t.take(4)[1] == p[1] && t.take(4)[2] == p[2] && t.take(4)[3]
            == p[3]);
    }
    lemma_word_len(t);
    assert(word_len(t) == 3) by {
        let n = word_len(t) as int;
        if n < 3 {
            assert(is_space(t[n]));
        } else if n > 3 {
            assert(!is_space(t[3]));
        }
    }
    assert(tail.drop_first() =~= rest);
    assert(words_of(tail) == words_of(rest));
    let others = words_of(rest);
    let ws = words_of(t);
    assert(ws == seq![head] + others);
    lemma_has_url(ws);
    if first_url(ws) is Some {
        let k = choose|k: int| 0 <= k < ws.len() && is_url(#[trigger] ws[k]);
        lemma_url_start(ws[k]);
        if k > 0 {
            assert(ws[k] == others[k - 1]);
            if u64_text(others[k - 1]) is Some {
                lemma_number_text(others[k - 1]);
            } else {
                assert(others[k - 1] == "audio"@);
            }
        } else {
            assert(ws[0][0] == '/');
        }
    }
}

/// A message asks for a download if and only if one of its words is an address.
pub proof fn law_download_means_address(text: Seq<char>)
    ensures
        message_action(text) is DownloadUrl <==> exists|k: int|
            0 <= k < words_of(trimmed(text)).len() && is_url(
                #[trigger] words_of(trimmed(text))[k],
            ),
{
    reveal_strlit("/start");
    reveal_strlit("/help");
    reveal_strlit("/cancel");
    reveal_strlit("/dl_best");
    reveal_strlit("/dl_audio_");
    reveal_strlit("/dl_");
    let t = trimmed(text);
    lemma_has_url(words_of(t));
    if t == "/start"@ || t == "/help"@ || t == "/cancel"@ || t == "/dl_best"@ {
        lemma_one_word(t);
    } else if number_after(t, "/dl_audio_"@) is Some {
        lemma_number_command(t, "/dl_audio_"@);
    } else if number_after(t, "/dl_"@) is Some {
        lemma_number_command(t, "/dl_"@);
    } else if let Some(rest) = after_prefix(t, "/dl "@) {
        if spaced_choice(words_of(rest)) is Some {
            lemma_spaced_command(t);
        }
    }
}

/// White space around a message does not change what it asks for.
pub proof fn law_surrounding_space(text: Seq<char>)
    ensures
        message_action(trimmed(text)) == message_action(text),
{
    law_trimmed(text);
}

// ---------------------------------------------------------------------------
// The menu
// ---------------------------------------------------------------------------

/// `part` stands somewhere in `whole`.
pub open spec fn is_within(part: Seq<char>, whole: Seq<char>) -> bool {
    exists|i: int| 0 <= i && i + part.len() <= whole.len() && #[trigger] whole.skip(i).take(part.len() as int) == part
}

proof fn lemma_within(a: Seq<char>, part: Seq<char>, b: Seq<char>)
    ensures
        is_within(part, a + part + b),
{
    let whole = a + part + b;
    assert(whole.skip(a.len() as int).take(part.len() as int) =~= part);
}

proof fn lemma_within_trans(part: Seq<char>, a: Seq<char>, mid: Seq<char>, b: Seq<char>)
    requires
        is_within(part, mid),
    ensures
        is_within(part, a + mid + b),
{
    let n = part.len() as int;
    let i = choose|i: int| 0 <= i && i + n <= mid.len() && #[trigger] mid.skip(i).take(n) == part;
    let whole = a + mid + b;
    assert(whole.skip(a.len() + i).take(n) =~= mid.skip(i).take(n));
}

proof fn lemma_line_listed(values: Seq<u64>, line: spec_fn(u64) -> Seq<char>, n: u64)
    requires
        values.contains(n),
    ensures
        is_within(line(n), lines_reversed(values, line)),
    decreases values.len(),
{
    let rest = lines_reversed(values.drop_last(), line);
    if values.last() == n {
        lemma_within(Seq::empty(), line(n), rest);
        assert(Seq::<char>::empty() + line(n) + rest =~= line(n) + rest);
    } else {
        let k = choose|k: int| 0 <= k < values.len() && values[k] == n;
        assert(values.drop_last()[k] == n);
        lemma_line_listed(values.drop_last(), line, n);
        lemma_within_trans(line(n), line(values.last()), rest, Seq::empty());
        assert(line(values.last()) + rest + Seq::<char>::empty() =~= line(values.last()) + rest);
    }
}

/// The menu has a line for every quality.
pub proof fn law_menu_lists(title: Seq<char>, video: Seq<u64>, audio: Seq<u64>, n: u64)
    ensures
        video.contains(n) ==> is_within(video_line(n), menu_text(title, video, audio)),
        audio.contains(n) ==> is_within(audio_line(n), menu_text(title, video, audio)),
{
    let whole = menu_text(title, video, audio);
    let pictures = |v: u64| video_line(v);
    let sounds = |v: u64| audio_line(v);
    let head = "🎬 "@ + title + "\n\nChoose quality to download:\n\n"@;
    let first = section("📹 Video:\n"@, video, pictures);
    let second = section("🎵 Audio only:\n"@, audio, sounds);
    let tail = "⚡ /dl_best — Best available\n"@ + "❌ /cancel — Cancel"@;
    assert(whole =~= head + first + second + tail);
    if video.contains(n) {
        lemma_line_listed(video, pictures, n);
        lemma_within_trans(
            video_line(n),
            "📹 Video:\n"@,
            lines_reversed(video, pictures),
            "\n"@,
        );
        lemma_within_trans(video_line(n), head, first, second + tail);
        assert(whole =~= head + first + (second + tail));
    }
    if audio.contains(n) {
        lemma_line_listed(audio, sounds, n);
        lemma_within_trans(
            audio_line(n),
            "🎵 Audio only:\n"@,
            lines_reversed(audio, sounds),
            "\n"@,
        );
        lemma_within_trans(audio_line(n), head + first, second, tail);
    }
}

// ---------------------------------------------------------------------------
// The keyboard
// ---------------------------------------------------------------------------

proof fn lemma_rows(buttons: Seq<Button>, r: int, c: int)
    requires
        0 <= r < in_rows(buttons).len(),
        0 <= c < in_rows(buttons)[r].len(),
    ensures
        buttons.contains(in_rows(buttons)[r][c]),
        in_rows(buttons)[r].len() <= 3,
    decreases buttons.len(),
{
    if buttons.len() <= 3 {
        assert(buttons[c] == in_rows(buttons)[r][c]);
    } else if r == 0 {
        assert(buttons[c] == in_rows(buttons)[r][c]);
    } else {
        let rest = buttons.skip(3);
        assert(in_rows(buttons)[r] == in_rows(rest)[r - 1]);
        lemma_rows(rest, r - 1, c);
        let k = choose|k: int| 0 <= k < rest.len() && rest[k] == in_rows(rest)[r - 1][c];
        assert(buttons[k + 3] == in_rows(buttons)[r][c]);
    }
}

proof fn lemma_in_some_row(buttons: Seq<Button>, k: int)
    requires
        0 <= k < buttons.len(),
    ensures
        exists|r: int, c: int|
            0 <= r < in_rows(buttons).len() && 0 <= c < in_rows(buttons)[r].len()
                && #[trigger] in_rows(buttons)[r][c] == buttons[k],
    decreases buttons.len(),
{
    if buttons.len() <= 3 {
        assert(in_rows(buttons)[0][k] == buttons[k]);
    } else if k < 3 {
        assert(in_rows(buttons)[0][k] == buttons[k]);
    } else {
        let rest = buttons.skip(3);
        lemma_in_some_row(rest, k - 3);
        let (r, c) = choose|r: int, c: int|
            0 <= r < in_rows(rest).len() && 0 <= c < in_rows(rest)[r].len()
                && #[trigger] in_rows(rest)[r][c] == rest[k - 3];
        assert(in_rows(buttons)[r + 1] == in_rows(rest)[r]);
        assert(in_rows(buttons)[r + 1][c] == buttons[k]);
    }
}

/// `action` asks for one of the given qualities, for the best one, or cancels.
pub open spec fn is_choice(action: Action, video: Seq<u64>, audio: Seq<u64>) -> bool {
    match action {
        Action::SelectQuality(Some(v), None) => video.contains(v),
        Action::SelectQuality(None, Some(a)) => audio.contains(a),
        Action::SelectQuality(None, None) => true,
        Action::Cancel => true,
        _ => false,
    }
}

/// Every button of the keyboard asks for one of the qualities that it was made for,
/// for the best one, or cancels. It has a text and a payload, and no row has more
/// than three.
pub proof fn law_keyboard_answers(video: Seq<u64>, audio: Seq<u64>, r: int, c: int)
    requires
        0 <= r < qualities_keyboard(video, audio).len(),
        0 <= c < qualities_keyboard(video, audio)[r].len(),
    ensures
        is_choice(
            callback_action(encode_utf8(qualities_keyboard(video, audio)[r][c].data)),
            video,
            audio,
        ),
        qualities_keyboard(video, audio)[r][c].text.len() > 0,
        qualities_keyboard(video, audio)[r][c].data.len() > 0,
        qualities_keyboard(video, audio)[r].len() <= 3,
{
    reveal_strlit("p");
    reveal_strlit("k");
    reveal_strlit("dl:");
    reveal_strlit("dl_audio:");
    reveal_strlit("dl:best");
    reveal_strlit("cancel");
    reveal_strlit("⚡ Best");
    reveal_strlit("❌ Cancel");
    let v = buttons_reversed(video, |v: u64| video_button(v));
    let a = buttons_reversed(audio, |v: u64| audio_button(v));
    let n = in_rows(v).len() as int;
    let m = in_rows(a).len() as int;
    let row = qualities_keyboard(video, audio)[r];
    if r < n {
        assert(row == in_rows(v)[r]);
        lemma_rows(v, r, c);
        let k = choose|k: int| 0 <= k < v.len() && v[k] == row[c];
        let value = video[video.len() - 1 - k];
        assert(row[c] == video_button(value));
        law_video_button(value);
    } else if r < n + m {
        assert(row == in_rows(a)[r - n]);
        lemma_rows(a, r - n, c);
        let k = choose|k: int| 0 <= k < a.len() && a[k] == row[c];
        let value = audio[audio.len() - 1 - k];
        assert(row[c] == audio_button(value));
        law_audio_button(value);
    } else {
        assert(row == seq![best_button(), cancel_button()]);
        law_fixed_buttons();
    }
}

/// Every quality has a button.
pub proof fn law_quality_has_button(video: Seq<u64>, audio: Seq<u64>, n: u64)
    ensures
        video.contains(n) ==> exists|r: int, c: int|
            0 <= r < qualities_keyboard(video, audio).len() && 0 <= c < qualities_keyboard(
                video,
                audio,
            )[r].len() && #[trigger] qualities_keyboard(video, audio)[r][c] == video_button(n),
        audio.contains(n) ==> exists|r: int, c: int|
            0 <= r < qualities_keyboard(video, audio).len() && 0 <= c < qualities_keyboard(
                video,
                audio,
            )[r].len() && #[trigger] qualities_keyboard(video, audio)[r][c] == audio_button(n),
{
    let v = buttons_reversed(video, |v: u64| video_button(v));
    let a = buttons_reversed(audio, |v: u64| audio_button(v));
    let keyboard = qualities_keyboard(video, audio);
    if video.contains(n) {
        let i = choose|i: int| 0 <= i < video.len() && video[i] == n;
        let k = video.len() - 1 - i;
        assert(v[k] == video_button(n));
        lemma_in_some_row(v, k);
        let (r, c) = choose|r: int, c: int|
            0 <= r < in_rows(v).len() && 0 <= c < in_rows(v)[r].len()
                && #[trigger] in_rows(v)[r][c] == v[k];
        assert(keyboard[r] == in_rows(v)[r]);
        assert(keyboard[r][c] == video_button(n));
    }
    if audio.contains(n) {
        let i = choose|i: int| 0 <= i < audio.len() && audio[i] == n;
        let k = audio.len() - 1 - i;
        assert(a[k] == audio_button(n));
        lemma_in_some_row(a, k);
        let (r, c) = choose|r: int, c: int|
            0 <= r < in_rows(a).len() && 0 <= c < in_rows(a)[r].len()
                && #[trigger] in_rows(a)[r][c] == a[k];
        let at = r + in_rows(v).len();
        assert(keyboard[at] == in_rows(a)[r]);
        assert(keyboard[at][c] == audio_button(n));
    }
}

// ---------------------------------------------------------------------------
// The dialogue
// ---------------------------------------------------------------------------

/// After a cancellation there is nothing left to cancel for this peer, and nothing
/// has changed for any other.
pub proof fn law_cancel_is_complete<H, D>(
    pre: BotState<H, D>,
    post: BotState<H, D>,
    peer_id: i64,
    other: i64,
)
    requires
        is_cancelled(pre, post, peer_id),
        other != peer_id,
    ensures
        !has_work(post, peer_id),
        post.operations(peer_id).len() == 0,
        has_work(post, other) == has_work(pre, other),
        post.operations(other) == pre.operations(other),
        post.pending@.contains_key(other) == pre.pending@.contains_key(other),
        pre.pending@.contains_key(other) ==> post.pending@[other] == pre.pending@[other],
        post.same_surroundings(&pre),
{
}

/// A cancellation reaches every running operation: one that was started stays among
/// those that are handed out, whatever others are started and end after it.
pub proof fn law_running_is_reached<H>(ops: Seq<Operation<H>>, op: Operation<H>, other: Operation<H>)
    requires
        ops.contains(op),
        other.id != op.id,
    ensures
        ops.push(other).contains(op),
        without(ops, other.id).contains(op),
{
    let k = choose|k: int| 0 <= k < ops.len() && ops[k] == op;
    assert(ops.push(other)[k] == op);
    lemma_without_others(ops, op, other.id);
}

proof fn lemma_without_others<H>(ops: Seq<Operation<H>>, op: Operation<H>, id: u64)
    requires
        ops.contains(op),
        op.id != id,
    ensures
        without(ops, id).contains(op),
    decreases ops.len(),
{
    let front = ops.drop_last();
    let rest = without(front, id);
    if ops.last() == op {
        assert(without(ops, id)[rest.len() as int] == op);
    } else {
        let k = choose|k: int| 0 <= k < ops.len() && ops[k] == op;
        assert(front[k] == op);
        lemma_without_others(front, op, id);
        let m = choose|m: int| 0 <= m < rest.len() && rest[m] == op;
        assert(without(ops, id)[m] == op);
    }
}

/// An operation that has ended is not handed out any more.
pub proof fn law_ended_is_gone<H>(ops: Seq<Operation<H>>, id: u64)
    ensures
        forall|i: int| 0 <= i < without(ops, id).len() ==> (#[trigger] without(ops, id)[i]).id != id,
    decreases ops.len(),
{
    if ops.len() > 0 {
        let rest = without(ops.drop_last(), id);
        law_ended_is_gone(ops.drop_last(), id);
        assert forall|i: int| 0 <= i < without(ops, id).len() implies (#[trigger] without(
            ops,
            id,
        )[i]).id != id by {
            if i < rest.len() {
                assert(without(ops, id)[i] == rest[i]);
            }
        }
    }
}

/// A quality can be chosen once: the next choice finds no media.
pub proof fn law_choice_is_taken<H, D>(
    pre: BotState<H, D>,
    mid: BotState<H, D>,
    post: BotState<H, D>,
    peer_id: i64,
    res: Option<u64>,
    abr: Option<u64>,
    step: MessageStep<H>,
)
    requires
        is_chosen(pre, mid, peer_id),
        answers_message(mid, post, peer_id, Action::SelectQuality(res, abr), step),
    ensures
        step matches MessageStep::Respond { text } && text@ == no_pending_text(),
{
}

/// A choice that was offered can be made by a message: it starts the download of
/// that media in that quality.
pub proof fn law_offer_then_command<H, D>(
    pre: BotState<H, D>,
    mid: BotState<H, D>,
    post: BotState<H, D>,
    peer_id: i64,
    url: Seq<char>,
    title: Seq<char>,
    res: Option<u64>,
    abr: Option<u64>,
    step: MessageStep<H>,
)
    requires
        is_offered(pre, mid, peer_id, url, title),
        answers_message(mid, post, peer_id, Action::SelectQuality(res, abr), step),
    ensures
        step matches MessageStep::Start { job } && job.pending.url@ == url && job.pending.title@
            == title && job.res == res && job.abr == abr,
        !post.pending@.contains_key(peer_id),
{
}

/// A choice that was offered can be made by a button: it starts the download of that
/// media in that quality.
pub proof fn law_offer_then_button<H, D>(
    pre: BotState<H, D>,
    mid: BotState<H, D>,
    post: BotState<H, D>,
    peer_id: i64,
    url: Seq<char>,
    title: Seq<char>,
    res: Option<u64>,
    abr: Option<u64>,
    step: CallbackStep<H>,
)
    requires
        is_offered(pre, mid, peer_id, url, title),
        answers_callback(mid, post, peer_id, Action::SelectQuality(res, abr), step),
    ensures
        step matches CallbackStep::Start { job } && job.pending.url@ == url && job.pending.title@
            == title && job.res == res && job.abr == abr,
        !post.pending@.contains_key(peer_id),
{
}

/// The button of a resolution leads to a request for the offered media with that
/// resolution as its cap.
pub proof fn law_video_button_to_request<H, D>(
    pre: BotState<H, D>,
    mid: BotState<H, D>,
    post: BotState<H, D>,
    peer_id: i64,
    url: Seq<char>,
    title: Seq<char>,
    n: u64,
    step: CallbackStep<H>,
)
    requires
        is_offered(pre, mid, peer_id, url, title),
        answers_callback(
            mid,
            post,
            peer_id,
            callback_action(encode_utf8(video_button(n).data)),
            step,
        ),
    ensures
        step matches CallbackStep::Start { job } && job.pending.url@ == url && job_sort(
            job.res,
            job.abr,
        ) == Some("res:"@ + decimal(n as nat)),
{
    law_video_button(n);
}

/// The button of a bitrate leads to a request for the offered media with that
/// bitrate as its cap.
pub proof fn law_audio_button_to_request<H, D>(
    pre: BotState<H, D>,
    mid: BotState<H, D>,
    post: BotState<H, D>,
    peer_id: i64,
    url: Seq<char>,
    title: Seq<char>,
    n: u64,
    step: CallbackStep<H>,
)
    requires
        is_offered(pre, mid, peer_id, url, title),
        answers_callback(
            mid,
            post,
            peer_id,
            callback_action(encode_utf8(audio_button(n).data)),
            step,
        ),
    ensures
        step matches CallbackStep::Start { job } && job.pending.url@ == url && job_sort(
            job.res,
            job.abr,
        ) == Some("abr:"@ + decimal(n as nat)),
{
    law_audio_button(n);
}

// ---------------------------------------------------------------------------
// Updates that come twice
// ---------------------------------------------------------------------------

/// `window` after all of `keys` were marked, one after the other.
pub open spec fn marked_all(window: Seq<(i64, i64)>, keys: Seq<(i64, i64)>) -> Seq<(i64, i64)>
    decreases keys.len(),
{
    if keys.len() == 0 {
        window
    } else {
        marked(marked_all(window, keys.drop_last()), keys.last())
    }
}

proof fn lemma_stays(window: Seq<(i64, i64)>, key: (i64, i64), keys: Seq<(i64, i64)>)
    requires
        window.len() <= SEEN_LIMIT,
        window.len() > 0,
        window.last() == key,
        keys.len() < SEEN_LIMIT,
    ensures
        marked_all(window, keys).len() <= SEEN_LIMIT,
        exists|i: int|
            0 <= i < marked_all(window, keys).len() && marked_all(window, keys)[i] == key
                && marked_all(window, keys).len() - 1 - i <= keys.len(),
    decreases keys.len(),
{
    if keys.len() == 0 {
        assert(marked_all(window, keys)[window.len() - 1] == key);
    } else {
        lemma_stays(window, key, keys.drop_last());
        let before = marked_all(window, keys.drop_last());
        let after = marked_all(window, keys);
        let i = choose|i: int|
            0 <= i < before.len() && before[i] == key && before.len() - 1 - i
                <= keys.drop_last().len();
        if before.contains(keys.last()) {
            assert(after[i] == key);
        } else if before.len() >= SEEN_LIMIT {
            assert(after[i - 1] == key);
        } else {
            assert(after[i] == key);
        }
    }
}

/// An update that was marked as new is known from then on, until a thousand others
/// were marked.
pub proof fn law_marked_stays_known(
    window: Seq<(i64, i64)>,
    key: (i64, i64),
    later: Seq<(i64, i64)>,
)
    requires
        window.len() <= SEEN_LIMIT,
        !window.contains(key),
        later.len() < SEEN_LIMIT,
    ensures
        marked_all(marked(window, key), later).contains(key),
{
    lemma_stays(marked(window, key), key, later);
}

/// An update that comes a second time is known, and changes nothing.
pub proof fn law_second_delivery(window: Seq<(i64, i64)>, key: (i64, i64))
    ensures
        marked(window, key).contains(key),
        marked(marked(window, key), key) == marked(window, key),
{
    let after = marked(window, key);
    if !window.contains(key) {
        assert(after.last() == key);
        assert(after[after.len() - 1] == key);
    }
}

/// Those of `keys` that were new when they came, one after the other, to an empty
/// window.
pub open spec fn new_keys(keys: Seq<(i64, i64)>) -> Seq<(i64, i64)>
    decreases keys.len(),
{
    if keys.len() == 0 {
        Seq::empty()
    } else if marked_all(Seq::empty(), keys.drop_last()).contains(keys.last()) {
        new_keys(keys.drop_last())
    } else {
        new_keys(keys.drop_last()).push(keys.last())
    }
}

/// The last thousand of `keys`, or all of them where there are fewer.
pub open spec fn last_thousand(keys: Seq<(i64, i64)>) -> Seq<(i64, i64)> {
    if keys.len() > SEEN_LIMIT {
        keys.skip(keys.len() - SEEN_LIMIT)
    } else {
        keys
    }
}

/// An update is known if and only if it is among the last thousand new ones.
pub proof fn law_known_are_the_last_new(keys: Seq<(i64, i64)>)
    ensures
        marked_all(Seq::empty(), keys) == last_thousand(new_keys(keys)),
    decreases keys.len(),
{
    if keys.len() > 0 {
        let before = keys.drop_last();
        law_known_are_the_last_new(before);
        let window = marked_all(Seq::empty(), before);
        if !window.contains(keys.last()) {
            assert(marked_all(Seq::empty(), keys) =~= last_thousand(
                new_keys(before).push(keys.last()),
            ));
        }
    }
}

// ---------------------------------------------------------------------------
// Laws
// ---------------------------------------------------------------------------


// ---------------------------------------------------------------------------
// Commands with separate words
// ---------------------------------------------------------------------------

proof fn lemma_padded_words(pad: Seq<char>, s: Seq<char>)
    requires
        all_space(pad),
    ensures
        words_of(pad + s) == words_of(s),
    decreases pad.len(),
{
    let whole = pad + s;
    if pad.len() == 0 {
        assert(whole =~= s);
    } else {
        assert(whole[0] == pad[0]);
        assert(whole.drop_first() =~= pad.drop_first() + s);
        lemma_padded_words(pad.drop_first(), s);
    }
}

proof fn lemma_spaced_start(t: Seq<char>, rest: Seq<char>)
    requires
        t == "/dl "@ + rest,
        rest.len() > 0,
        !is_space(rest.last()),
    ensures
        trimmed(t) == t,
        after_prefix(t, "/dl "@) == Some(rest),
        spaced_choice(words_of(rest)) matches Some(choice) ==> message_action(t) == choice,
{
    reveal_strlit("/start");
    reveal_strlit("/help");
    reveal_strlit("/cancel");
    reveal_strlit("/dl_best");
    reveal_strlit("/dl_audio_");
    reveal_strlit("/dl_");
    reveal_strlit("/dl ");
    assert(t[0] == '/' && t[1] == 'd' && t[3] == ' ');
    assert(t.last() == rest.last());
    lemma_trimmed_command(t);
    law_prefix(t, "/dl "@, rest);
    assert("/start"@[1] == 's');
    assert("/help"@[1] == 'h');
    assert("/cancel"@[1] == 'c');
    assert("/dl_best"@[3] == '_');
    assert(number_after(t, "/dl_audio_"@) is None) by {
        if has_prefix(t, "/dl_audio_"@) {
            assert(t.take(10)[3] == '_');
        }
    }
    assert(number_after(t, "/dl_"@) is None) by {
        if has_prefix(t, "/dl_"@) {
            assert(t.take(4)[3] == '_');
        }
    }
}

/// A number after `/dl` and white space asks for that resolution.
pub proof fn law_spaced_video_command(pad: Seq<char>, n: u64)
    requires
        all_space(pad),
    ensures
        message_action("/dl "@ + (pad + decimal(n as nat))) == Action::SelectQuality(Some(n), None),
{
    let d = decimal(n as nat);
    let rest = pad + d;
    lemma_numeral_ends(n);
    law_u64_round_trip(n);
    assert(rest.last() == d.last());
    lemma_padded_words(pad, d);
    lemma_number_text(d);
    law_words(' ', d, Seq::empty());
    lemma_spaced_start("/dl "@ + rest, rest);
}

/// The word `audio` and a number after `/dl` and white space ask for that bitrate.
pub proof fn law_spaced_audio_command(before: Seq<char>, space: char, between: Seq<char>, n: u64)
    requires
        all_space(before),
        is_space(space),
        all_space(between),
    ensures
        message_action(
            "/dl "@ + (before + ("audio"@ + (seq![space] + (between + decimal(n as nat))))),
        ) == Action::SelectQuality(None, Some(n)),
{
    reveal_strlit("audio");
    let d = decimal(n as nat);
    let tail = between + d;
    let middle = "audio"@ + (seq![space] + tail);
    let rest = before + middle;
    lemma_numeral_ends(n);
    law_u64_round_trip(n);
    assert(rest.last() == d.last());
    lemma_padded_words(before, middle);
    lemma_padded_words(between, d);
    lemma_number_text(d);
    law_words(space, d, Seq::empty());
    law_words(space, "audio"@, tail);
    let ws = words_of(rest);
    assert(ws =~= seq!["audio"@, d]);
    assert(ws[0] == "audio"@ && ws[1] == d);
    lemma_spaced_start("/dl "@ + rest, rest);
}

// ---------------------------------------------------------------------------
// What an action comes from
// ---------------------------------------------------------------------------

/// Help is asked for by two messages, and a cancellation by one.
pub proof fn law_help_and_cancel(text: Seq<char>)
    ensures
        message_action(text) is Help <==> trimmed(text) == "/start"@ || trimmed(text) == "/help"@,
        message_action(text) is Cancel <==> trimmed(text) == "/cancel"@,
{
    reveal_strlit("/start");
    reveal_strlit("/help");
    reveal_strlit("/cancel");
    assert("/start"@[1] == 's');
    assert("/help"@[1] == 'h');
    assert("/cancel"@[1] == 'c');
}

/// A message asks for a quality only where it is a command that names it: the best one
/// by `/dl_best`, a resolution by its number, and a bitrate by its number after
/// `audio`.
pub proof fn law_selection_is_named(text: Seq<char>, res: Option<u64>, abr: Option<u64>)
    requires
        message_action(text) == Action::SelectQuality(res, abr),
    ensures
        res is None && abr is None ==> trimmed(text) == "/dl_best"@,
        res matches Some(n) ==> abr is None && ((after_prefix(trimmed(text), "/dl_"@) matches Some(r)
            && u64_text(r) == Some(n)) || (after_prefix(trimmed(text), "/dl "@) matches Some(r)
            && words_of(r).len() == 1 && u64_text(words_of(r)[0]) == Some(n))),
        abr matches Some(n) ==> res is None && ((after_prefix(trimmed(text), "/dl_audio_"@) matches Some(
            r,
        ) && u64_text(r) == Some(n)) || (after_prefix(trimmed(text), "/dl "@) matches Some(r)
            && words_of(r).len() == 2 && words_of(r)[0] == "audio"@ && u64_text(words_of(r)[1])
            == Some(n))),
{
}

/// The address that a message asks for is the first of its words that begins with a
/// scheme.
pub proof fn law_first_address(text: Seq<char>, url: Seq<char>) -> (k: int)
    requires
        message_action(text) == Action::DownloadUrl(url),
    ensures
        0 <= k < words_of(trimmed(text)).len(),
        words_of(trimmed(text))[k] == url,
        has_prefix(url, "http://"@) || has_prefix(url, "https://"@),
        forall|j: int|
            0 <= j < k ==> !has_prefix(#[trigger] words_of(trimmed(text))[j], "http://"@)
                && !has_prefix(words_of(trimmed(text))[j], "https://"@),
{
    lemma_first_address(words_of(trimmed(text)))
}

proof fn lemma_first_address(ws: Seq<Seq<char>>) -> (k: int)
    requires
        first_url(ws) is Some,
    ensures
        0 <= k < ws.len(),
        first_url(ws) == Some(ws[k]),
        has_prefix(ws[k], "http://"@) || has_prefix(ws[k], "https://"@),
        forall|j: int|
            0 <= j < k ==> !has_prefix(#[trigger] ws[j], "http://"@) && !has_prefix(
                ws[j],
                "https://"@,
            ),
    decreases ws.len(),
{
    if is_url(ws[0]) {
        0
    } else {
        let rest = ws.drop_first();
        let k = lemma_first_address(rest);
        assert forall|j: int| 0 <= j < k + 1 implies !has_prefix(#[trigger] ws[j], "http://"@)
            && !has_prefix(ws[j], "https://"@) by {
            if j > 0 {
                assert(ws[j] == rest[j - 1]);
            }
        }
        k + 1
    }
}

/// A button press asks only for what its payload says, and for nothing where the
/// payload is no text.
pub proof fn law_payload_is_named(data: Seq<u8>, s: Seq<char>, n: u64)
    ensures
        !valid_utf8(data) ==> callback_action(data) is Unknown,
        valid_utf8(data) ==> callback_action(data) == callback_text_action(decode_utf8(data)),
        callback_text_action(s) is Cancel <==> s == "cancel"@,
        callback_text_action(s) == Action::SelectQuality(None, None) <==> s == "dl:best"@,
        callback_text_action(s) == Action::SelectQuality(Some(n), None) ==> (
        after_prefix(s, "dl:"@) matches Some(r) && u64_text(r) == Some(n)),
        callback_text_action(s) == Action::SelectQuality(None, Some(n)) ==> (
        after_prefix(s, "dl_audio:"@) matches Some(r) && u64_text(r) == Some(n)),
        !(callback_text_action(s) is Help),
        !(callback_text_action(s) is DownloadUrl),
{
    reveal_strlit("cancel");
    reveal_strlit("dl:best");
    assert("cancel"@[0] == 'c');
    assert("dl:best"@[0] == 'd');
}

/// The content of an action is what it holds.
pub proof fn law_action_content(action: TelegramAction)
    ensures
        action is Help ==> action@ is Help,
        action is Cancel ==> action@ is Cancel,
        action is Unknown ==> action@ is Unknown,
        action matches TelegramAction::DownloadUrl { url } ==> action@ == Action::DownloadUrl(url@),
        action matches TelegramAction::SelectQuality { res, abr } ==> action@
            == Action::SelectQuality(res, abr),
{
}

// ---------------------------------------------------------------------------
// What the menu and the keyboard show
// ---------------------------------------------------------------------------

/// The menu shows the title, the resolutions and then the bitrates, each from the
/// highest to the lowest, and two commands that are always there.
pub proof fn law_menu_shows(title: Seq<char>, video: Seq<u64>, audio: Seq<u64>, n: u64)
    ensures
        menu_text(title, video, audio) == "🎬 "@ + title + "\n\nChoose quality to download:\n\n"@ + (
        if video.len() == 0 {
            Seq::empty()
        } else {
            "📹 Video:\n"@ + lines_reversed(video, |v: u64| video_line(v)) + "\n"@
        }) + (if audio.len() == 0 {
            Seq::empty()
        } else {
            "🎵 Audio only:\n"@ + lines_reversed(audio, |v: u64| audio_line(v)) + "\n"@
        }) + "⚡ /dl_best — Best available\n"@ + "❌ /cancel — Cancel"@,
        video_line(n) == "  /dl_"@ + decimal(n as nat) + " — "@ + decimal(n as nat) + "p\n"@,
        audio_line(n) == "  /dl_audio_"@ + decimal(n as nat) + " — "@ + decimal(n as nat)
            + " kbps\n"@,
{
}

/// The lines of a list are written from the last value to the first.
pub proof fn law_lines_from_the_last(values: Seq<u64>, line: spec_fn(u64) -> Seq<char>, v: u64)
    ensures
        lines_reversed(Seq::empty(), line).len() == 0,
        lines_reversed(values.push(v), line) == line(v) + lines_reversed(values, line),
{
    assert(values.push(v).drop_last() =~= values);
}

/// What each button shows and sends.
pub proof fn law_buttons_show(n: u64)
    ensures
        video_button(n).text == decimal(n as nat) + "p"@,
        video_button(n).data == "dl:"@ + decimal(n as nat),
        audio_button(n).text == "🎵 "@ + decimal(n as nat) + "k"@,
        audio_button(n).data == "dl_audio:"@ + decimal(n as nat),
        best_button().text == "⚡ Best"@,
        best_button().data == "dl:best"@,
        cancel_button().text == "❌ Cancel"@,
        cancel_button().data == "cancel"@,
{
}

/// Buttons stand in rows of three, from left to right and from top to bottom.
pub proof fn law_rows_of_three(buttons: Seq<Button>, i: int)
    requires
        0 <= i < buttons.len(),
    ensures
        i / 3 < in_rows(buttons).len(),
        i % 3 < in_rows(buttons)[i / 3].len(),
        in_rows(buttons)[i / 3][i % 3] == buttons[i],
        in_rows(buttons).len() == (buttons.len() + 2) / 3,
        i / 3 < in_rows(buttons).len() - 1 ==> in_rows(buttons)[i / 3].len() == 3,
    decreases buttons.len(),
{
    if buttons.len() > 3 {
        let rest = buttons.skip(3);
        let rows = in_rows(rest);
        assert(in_rows(buttons) == seq![buttons.take(3)] + rows);
        law_rows_of_three(rest, if i < 3 { 0 } else { i - 3 });
        if i >= 3 {
            assert((i - 3) / 3 == i / 3 - 1);
            assert((i - 3) % 3 == i % 3);
            assert(in_rows(buttons)[i / 3] == rows[i / 3 - 1]);
            assert(rest[i - 3] == buttons[i]);
        } else {
            assert(in_rows(buttons)[0] == buttons.take(3));
        }
    }
}

/// The keyboard has the resolutions, then the bitrates, each from the highest to the
/// lowest and in rows of their own, and then one row to take the best and to cancel.
pub proof fn law_keyboard_shows(video: Seq<u64>, audio: Seq<u64>, i: int)
    ensures
        ({
            let v = in_rows(buttons_reversed(video, |v: u64| video_button(v)));
            let a = in_rows(buttons_reversed(audio, |v: u64| audio_button(v)));
            let k = qualities_keyboard(video, audio);
            &&& k.len() == v.len() + a.len() + 1
            &&& k.take(v.len() as int) == v
            &&& k.subrange(v.len() as int, (v.len() + a.len()) as int) == a
            &&& k.last() == seq![best_button(), cancel_button()]
        }),
        buttons_reversed(video, |v: u64| video_button(v)).len() == video.len(),
        0 <= i < video.len() ==> buttons_reversed(video, |v: u64| video_button(v))[i]
            == video_button(video[video.len() - 1 - i]),
        buttons_reversed(audio, |v: u64| audio_button(v)).len() == audio.len(),
        0 <= i < audio.len() ==> buttons_reversed(audio, |v: u64| audio_button(v))[i]
            == audio_button(audio[audio.len() - 1 - i]),
        cancel_keyboard() == seq![seq![cancel_button()]],
{
    let v = in_rows(buttons_reversed(video, |v: u64| video_button(v)));
    let a = in_rows(buttons_reversed(audio, |v: u64| audio_button(v)));
    let k = qualities_keyboard(video, audio);
    assert(k.take(v.len() as int) =~= v);
    assert(k.subrange(v.len() as int, (v.len() + a.len()) as int) =~= a);
}

/// A button is sent with its text and the bytes of its payload, in its place.
pub proof fn law_buttons_are_sent(rows: Seq<Seq<Button>>, r: int, c: int)
    requires
        0 <= r < rows.len(),
        0 <= c < rows[r].len(),
    ensures
        encoded(rows).len() == rows.len(),
        encoded(rows)[r].len() == rows[r].len(),
        encoded(rows)[r][c] == (rows[r][c].text, encode_utf8(rows[r][c].data)),
{
}

// ---------------------------------------------------------------------------
// What is answered
// ---------------------------------------------------------------------------

/// A request for help is answered with what the bot does, and a message that asks for
/// nothing is not answered; neither changes anything.
pub proof fn law_help_is_answered<H, D>(
    pre: BotState<H, D>,
    post: BotState<H, D>,
    peer_id: i64,
    text: Seq<char>,
    step: MessageStep<H>,
)
    requires
        answers_message(pre, post, peer_id, message_action(text), step),
    ensures
        trimmed(text) == "/start"@ || trimmed(text) == "/help"@ ==> post == pre && (
        step matches MessageStep::Respond { text: t } && t@
            == "rsdlp Telegram Bot\n\nSend me any media URL (YouTube, Twitter/X, TikTok, etc.) to fetch available qualities and download."@),
        message_action(text) is Unknown ==> step is Ignore && post == pre,
        message_action(text) matches Action::DownloadUrl(url) ==> post == pre && (
        step matches MessageStep::CheckUrl { url: u } && u@ == url),
{
    law_help_and_cancel(text);
}

/// A cancellation, by message or by button, hands out every operation of the peer and
/// says whether there was anything; afterwards nothing is left of it.
pub proof fn law_cancellation_is_answered<H, D>(
    pre: BotState<H, D>,
    post: BotState<H, D>,
    peer_id: i64,
    text: Seq<char>,
    step: MessageStep<H>,
    data: Seq<u8>,
    press: CallbackStep<H>,
)
    requires
        trimmed(text) == "/cancel"@,
        data == encode_utf8("cancel"@),
    ensures
        answers_message(pre, post, peer_id, message_action(text), step) ==> {
            &&& step matches MessageStep::Cancel { abort, text: t }
            &&& abort@ == pre.operations(peer_id)
            &&& t@ == (if pre.pending@.contains_key(peer_id) || pre.operations(peer_id).len() > 0 {
                "❌ Operation cancelled."@
            } else {
                "Nothing to cancel."@
            })
            &&& !post.pending@.contains_key(peer_id)
            &&& post.operations(peer_id).len() == 0
        },
        answers_callback(pre, post, peer_id, callback_action(data), press) ==> {
            &&& press matches CallbackStep::Cancel { abort, text: t }
            &&& abort@ == pre.operations(peer_id)
            &&& t@ == (if pre.pending@.contains_key(peer_id) || pre.operations(peer_id).len() > 0 {
                "❌ Operation cancelled."@
            } else {
                "Nothing to cancel."@
            })
            &&& !post.pending@.contains_key(peer_id)
            &&& post.operations(peer_id).len() == 0
        },
{
    law_help_and_cancel(text);
    law_fixed_buttons();
}

/// A choice leaves the operations alone, takes the pending media away from its peer,
/// and leaves every other peer its own.
pub proof fn law_choice_changes_little<H, D>(
    pre: BotState<H, D>,
    post: BotState<H, D>,
    peer_id: i64,
    other: i64,
)
    requires
        is_chosen(pre, post, peer_id),
        other != peer_id,
    ensures
        !post.pending@.contains_key(peer_id),
        post.pending@.contains_key(other) == pre.pending@.contains_key(other),
        pre.pending@.contains_key(other) ==> post.pending@[other] == pre.pending@[other],
        post.active_operations == pre.active_operations,
        post.same_surroundings(&pre),
{
}

/// A choice without a media is told so, by message and by button, and a payload that
/// asks for nothing is acknowledged.
pub proof fn law_choice_without_media<H, D>(
    pre: BotState<H, D>,
    post: BotState<H, D>,
    peer_id: i64,
    res: Option<u64>,
    abr: Option<u64>,
    step: MessageStep<H>,
    press: CallbackStep<H>,
)
    requires
        !pre.pending@.contains_key(peer_id),
    ensures
        answers_message(pre, post, peer_id, Action::SelectQuality(res, abr), step) ==> (
        step matches MessageStep::Respond { text } && text@
            == "No pending media URL. Send a URL first!"@),
        answers_callback(pre, post, peer_id, Action::SelectQuality(res, abr), press) ==> (
        press matches CallbackStep::Alert { text } && text@
            == "No pending media URL. Send a URL first!"@),
        answers_callback(pre, post, peer_id, Action::Unknown, press) ==> press is Acknowledge
            && post == pre,
{
}

/// A chosen quality is called by its resolution, or else by its bitrate, or else the
/// best.
pub proof fn law_quality_is_called(n: u64, m: u64, abr: Option<u64>)
    ensures
        quality_name(Some(n), abr) == decimal(n as nat) + "p"@,
        quality_name(None, Some(m)) == decimal(m as nat) + " kbps audio"@,
        quality_name(None, None) == "best quality"@,
{
}

/// A started download, by message or by button, is that of the pending media in the
/// chosen quality, called by its name.
pub proof fn law_started_download<H, D>(
    pre: BotState<H, D>,
    post: BotState<H, D>,
    peer_id: i64,
    res: Option<u64>,
    abr: Option<u64>,
    step: MessageStep<H>,
    press: CallbackStep<H>,
)
    requires
        pre.pending@.contains_key(peer_id),
    ensures
        answers_message(pre, post, peer_id, Action::SelectQuality(res, abr), step) ==> {
            &&& step matches MessageStep::Start { job }
            &&& job.pending == pre.pending@[peer_id]
            &&& job.res == res
            &&& job.abr == abr
            &&& res matches Some(n) ==> job.desc@ == decimal(n as nat) + "p"@
            &&& res is None ==> (abr matches Some(m) ==> job.desc@ == decimal(m as nat)
                + " kbps audio"@)
            &&& res is None && abr is None ==> job.desc@ == "best quality"@
            &&& is_chosen(pre, post, peer_id)
        },
        answers_callback(pre, post, peer_id, Action::SelectQuality(res, abr), press) ==> {
            &&& press matches CallbackStep::Start { job }
            &&& job.pending == pre.pending@[peer_id]
            &&& job.res == res
            &&& job.abr == abr
            &&& res matches Some(n) ==> job.desc@ == decimal(n as nat) + "p"@
            &&& res is None ==> (abr matches Some(m) ==> job.desc@ == decimal(m as nat)
                + " kbps audio"@)
            &&& res is None && abr is None ==> job.desc@ == "best quality"@
            &&& is_chosen(pre, post, peer_id)
        },
{
}

/// What is said of a disabled provider, and while the qualities are fetched.
pub proof fn law_notices(domain: Seq<char>)
    ensures
        disabled_text(domain) == "⚠️ Provider Disabled\n\nThis media provider ('"@ + domain
            + "') is currently disabled because processing its streams is a heavy operation that requires intensive CPU and server resources."@,
        fetching_text() == "🔍 Fetching qualities..."@,
{
}

/// A media with anything to play is offered: the menu shows its title and its
/// qualities over their keyboard, and the choice is left to its peer alone. One
/// without is told so, and nothing is kept.
pub proof fn law_media_is_offered<H, D>(
    pre: BotState<H, D>,
    post: BotState<H, D>,
    peer_id: i64,
    other: i64,
    url: Seq<char>,
    title: Seq<char>,
    q: Qualities,
    step: InfoStep,
)
    requires
        presents(pre, post, peer_id, url, title, q, step),
        other != peer_id,
    ensures
        q.video@.len() == 0 && q.audio@.len() == 0 ==> post == pre && (
        step matches InfoStep::Notice { text } && text@
            == "No playable formats found for this URL."@),
        q.video@.len() > 0 || q.audio@.len() > 0 ==> {
            &&& step matches InfoStep::Menu { text, markup }
            &&& text@ == menu_text(title, q.video@, q.audio@)
            &&& markup_rows(markup) == encoded(qualities_keyboard(q.video@, q.audio@))
            &&& post.pending@.contains_key(peer_id)
            &&& post.pending@[peer_id].url@ == url
            &&& post.pending@[peer_id].title@ == title
            &&& post.pending@.contains_key(other) == pre.pending@.contains_key(other)
            &&& pre.pending@.contains_key(other) ==> post.pending@[other] == pre.pending@[other]
            &&& post.active_operations == pre.active_operations
            &&& post.same_surroundings(&pre)
        },
{
}

/// The content of a keyboard has its buttons in their places.
pub proof fn law_keyboard_content(rows: Seq<Vec<InlineButton>>, r: int, c: int)
    requires
        0 <= r < rows.len(),
        0 <= c < rows[r]@.len(),
    ensures
        keyboard_content(rows).len() == rows.len(),
        keyboard_content(rows)[r].len() == rows[r]@.len(),
        keyboard_content(rows)[r][c].text == rows[r]@[c].text@,
        keyboard_content(rows)[r][c].data == rows[r]@[c].data@,
{
}

/// A number that follows `/dl_` asks for that resolution, in whatever way it is
/// written.
pub proof fn law_number_command(text: Seq<char>, rest: Seq<char>, n: u64)
    requires
        trimmed(text) == "/dl_"@ + rest,
        u64_text(rest) == Some(n),
    ensures
        message_action(text) == Action::SelectQuality(Some(n), None),
{
    reveal_strlit("/dl_");
    reveal_strlit("/start");
    reveal_strlit("/help");
    reveal_strlit("/cancel");
    reveal_strlit("/dl_best");
    reveal_strlit("/dl_audio_");
    let t = trimmed(text);
    law_prefix(t, "/dl_"@, rest);
    lemma_number_text(rest);
    let digits = unsigned_part(rest, '+');
    assert(all_digits(digits) && digits.len() > 0);
    assert(rest[0] == '+' || is_digit(rest[0])) by {
        if digits == rest {
            assert(is_digit(digits[0]));
        }
    }
    assert(t[1] == 'd' && t[4] == rest[0]);
    assert("/start"@[1] == 's');
    assert("/help"@[1] == 'h');
    assert("/cancel"@[1] == 'c');
    assert("/dl_best"@[4] == 'b');
    assert(number_after(t, "/dl_audio_"@) is None) by {
        if has_prefix(t, "/dl_audio_"@) {
            assert(t.take(10)[4] == 'a');
        }
    }
}

/// An address is a word that begins with one of two schemes, and a message with such
/// a word asks for a download.
pub proof fn law_what_an_address_is(text: Seq<char>, k: int, rest: Seq<char>)
    requires
        0 <= k < words_of(trimmed(text)).len(),
        words_of(trimmed(text))[k] == "http://"@ + rest || words_of(trimmed(text))[k] == "https://"@
            + rest,
    ensures
        is_url("http://"@ + rest),
        is_url("https://"@ + rest),
        message_action(text) is DownloadUrl,
{
    law_prefix("http://"@ + rest, "http://"@, rest);
    law_prefix("https://"@ + rest, "https://"@, rest);
    assert(is_url(words_of(trimmed(text))[k]));
    law_download_means_address(text);
}

} // verus!
