//! The menu of qualities, as a message and as a keyboard.

use vstd::prelude::*;
use vstd::utf8::encode_utf8;

use crate::numeral::decimal;
use crate::numeral::decimal_text;
use crate::ytdlp::Qualities;

verus! {

// ---------------------------------------------------------------------------
// The message
// ---------------------------------------------------------------------------

/// The line that offers a resolution.
pub open spec fn video_line(res: u64) -> Seq<char> {
    "  /dl_"@ + decimal(res as nat) + " — "@ + decimal(res as nat) + "p\n"@
}

/// The line that offers a bitrate.
pub open spec fn audio_line(abr: u64) -> Seq<char> {
    "  /dl_audio_"@ + decimal(abr as nat) + " — "@ + decimal(abr as nat) + " kbps\n"@
}

/// The lines that offer `values`, from the last to the first.
pub open spec fn lines_reversed(values: Seq<u64>, line: spec_fn(u64) -> Seq<char>) -> Seq<char>
    decreases values.len(),
{
    if values.len() == 0 {
        Seq::empty()
    } else {
        line(values.last()) + lines_reversed(values.drop_last(), line)
    }
}

/// A section of the menu: its heading and its lines, or nothing without values.
pub open spec fn section(
    heading: Seq<char>,
    values: Seq<u64>,
    line: spec_fn(u64) -> Seq<char>,
) -> Seq<char> {
    if values.len() == 0 {
        Seq::empty()
    } else {
        heading + lines_reversed(values, line) + "\n"@
    }
}

/// The menu for a media.
pub open spec fn menu_text(title: Seq<char>, video: Seq<u64>, audio: Seq<u64>) -> Seq<char> {
    "🎬 "@ + title + "\n\nChoose quality to download:\n\n"@ + section(
        "📹 Video:\n"@,
        video,
        |v: u64| video_line(v),
    ) + section("🎵 Audio only:\n"@, audio, |v: u64| audio_line(v))
        + "⚡ /dl_best — Best available\n"@ + "❌ /cancel — Cancel"@
}

fn video_line_text(res: u64) -> (r: String)
    ensures
        r@ == video_line(res),
{
    let numeral = decimal_text(res);
    let mut out = String::from_str("  /dl_");
    out.append(numeral.as_str());
    out.append(" — ");
    out.append(numeral.as_str());
    out.append("p\n");
    out
}

fn audio_line_text(abr: u64) -> (r: String)
    ensures
        r@ == audio_line(abr),
{
    let numeral = decimal_text(abr);
    let mut out = String::from_str("  /dl_audio_");
    out.append(numeral.as_str());
    out.append(" — ");
    out.append(numeral.as_str());
    out.append(" kbps\n");
    out
}

fn video_section(values: &Vec<u64>) -> (r: String)
    ensures
        r@ == section("📹 Video:\n"@, values@, |v: u64| video_line(v)),
{
    let mut out = String::new();
    if values.len() > 0 {
        out.append("📹 Video:\n");
        let ghost line = |v: u64| video_line(v);
        let ghost heading = "📹 Video:\n"@;
        assert(out@ =~= heading);
        let mut i: usize = values.len();
        assert(values@.take(i as int) =~= values@);
        while i > 0
            invariant
                i <= values@.len(),
                line == |v: u64| video_line(v),
                out@ + lines_reversed(values@.take(i as int), line) == heading + lines_reversed(
                    values@,
                    line,
                ),
            decreases i,
        {
            let ghost part = values@.take(i as int);
            assert(part.drop_last() =~= values@.take(i - 1));
            assert(part.last() == values@[i - 1]);
            let ghost before = out@;
            out.append(video_line_text(values[i - 1]).as_str());
            assert(out@ + lines_reversed(values@.take(i - 1), line) =~= before + lines_reversed(
                part,
                line,
            ));
            i -= 1;
        }
        assert(out@ + lines_reversed(values@.take(0), line) =~= out@);
        out.append("\n");
    }
    out
}

fn audio_section(values: &Vec<u64>) -> (r: String)
    ensures
        r@ == section("🎵 Audio only:\n"@, values@, |v: u64| audio_line(v)),
{
    let mut out = String::new();
    if values.len() > 0 {
        out.append("🎵 Audio only:\n");
        let ghost line = |v: u64| audio_line(v);
        let ghost heading = "🎵 Audio only:\n"@;
        assert(out@ =~= heading);
        let mut i: usize = values.len();
        assert(values@.take(i as int) =~= values@);
        while i > 0
            invariant
                i <= values@.len(),
                line == |v: u64| audio_line(v),
                out@ + lines_reversed(values@.take(i as int), line) == heading + lines_reversed(
                    values@,
                    line,
                ),
            decreases i,
        {
            let ghost part = values@.take(i as int);
            assert(part.drop_last() =~= values@.take(i - 1));
            assert(part.last() == values@[i - 1]);
            let ghost before = out@;
            out.append(audio_line_text(values[i - 1]).as_str());
            assert(out@ + lines_reversed(values@.take(i - 1), line) =~= before + lines_reversed(
                part,
                line,
            ));
            i -= 1;
        }
        assert(out@ + lines_reversed(values@.take(0), line) =~= out@);
        out.append("\n");
    }
    out
}

/// Formats qualities into a message with clickable commands.
pub fn format_qualities_menu(title: &str, qualities: &Qualities) -> (r: String)
    ensures
        r@ == menu_text(title@, qualities.video@, qualities.audio@),
{
    let mut msg = String::from_str("🎬 ");
    msg.append(title);
    msg.append("\n\nChoose quality to download:\n\n");
    msg.append(video_section(&qualities.video).as_str());
    msg.append(audio_section(&qualities.audio).as_str());
    msg.append("⚡ /dl_best — Best available\n");
    msg.append("❌ /cancel — Cancel");
    msg
}

// ---------------------------------------------------------------------------
// The keyboard
// ---------------------------------------------------------------------------

/// A button under a message: what it shows and what it sends.
#[derive(Debug, PartialEq, Clone)]
pub struct InlineButton {
    pub text: String,
    pub data: String,
}

/// The content of a button: what it shows and what it sends.
pub ghost struct Button {
    pub text: Seq<char>,
    pub data: Seq<char>,
}

impl View for InlineButton {
    type V = Button;

    open spec fn view(&self) -> Button {
        Button { text: self.text@, data: self.data@ }
    }
}

/// The button that offers a resolution.
pub open spec fn video_button(res: u64) -> Button {
    Button { text: decimal(res as nat) + "p"@, data: "dl:"@ + decimal(res as nat) }
}

/// The button that offers a bitrate.
pub open spec fn audio_button(abr: u64) -> Button {
    Button {
        text: "🎵 "@ + decimal(abr as nat) + "k"@,
        data: "dl_audio:"@ + decimal(abr as nat),
    }
}

/// The button that asks for the best quality.
pub open spec fn best_button() -> Button {
    Button { text: "⚡ Best"@, data: "dl:best"@ }
}

/// The button that cancels.
pub open spec fn cancel_button() -> Button {
    Button { text: "❌ Cancel"@, data: "cancel"@ }
}

/// The buttons that offer `values`, from the last to the first.
pub open spec fn buttons_reversed(values: Seq<u64>, button: spec_fn(u64) -> Button) -> Seq<Button> {
    Seq::new(values.len(), |i: int| button(values[values.len() - 1 - i]))
}

/// `buttons` in rows of three.
pub open spec fn in_rows(buttons: Seq<Button>) -> Seq<Seq<Button>>
    decreases buttons.len(),
{
    if buttons.len() == 0 {
        Seq::empty()
    } else if buttons.len() <= 3 {
        seq![buttons]
    } else {
        seq![buttons.take(3)] + in_rows(buttons.skip(3))
    }
}

/// The keyboard for a media.
pub open spec fn qualities_keyboard(video: Seq<u64>, audio: Seq<u64>) -> Seq<Seq<Button>> {
    in_rows(buttons_reversed(video, |v: u64| video_button(v))) + in_rows(
        buttons_reversed(audio, |v: u64| audio_button(v)),
    ) + seq![seq![best_button(), cancel_button()]]
}

/// The keyboard that only cancels.
pub open spec fn cancel_keyboard() -> Seq<Seq<Button>> {
    seq![seq![cancel_button()]]
}

/// The content of a row of buttons.
pub open spec fn row_content(row: Seq<InlineButton>) -> Seq<Button> {
    row.map_values(|b: InlineButton| b@)
}

/// The content of a keyboard.
pub open spec fn keyboard_content(rows: Seq<Vec<InlineButton>>) -> Seq<Seq<Button>> {
    rows.map_values(|row: Vec<InlineButton>| row_content(row@))
}

fn button(text: String, data: String) -> (r: InlineButton)
    ensures
        r@ == (Button { text: text@, data: data@ }),
{
    InlineButton { text, data }
}

fn video_buttons(values: &Vec<u64>) -> (r: Vec<InlineButton>)
    ensures
        row_content(r@) == buttons_reversed(values@, |v: u64| video_button(v)),
{
    let mut out: Vec<InlineButton> = Vec::new();
    let mut i: usize = values.len();
    while i > 0
        invariant
            i <= values@.len(),
            out@.len() == values@.len() - i,
            forall|k: int|
                0 <= k < out@.len() ==> (#[trigger] out@[k])@ == video_button(
                    values@[values@.len() - 1 - k],
                ),
        decreases i,
    {
        let numeral = decimal_text(values[i - 1]);
        let mut data = String::from_str("dl:");
        data.append(numeral.as_str());
        let mut text = numeral;
        text.append("p");
        out.push(button(text, data));
        i -= 1;
    }
    assert(row_content(out@) =~= buttons_reversed(values@, |v: u64| video_button(v)));
    out
}

fn audio_buttons(values: &Vec<u64>) -> (r: Vec<InlineButton>)
    ensures
        row_content(r@) == buttons_reversed(values@, |v: u64| audio_button(v)),
{
    let mut out: Vec<InlineButton> = Vec::new();
    let mut i: usize = values.len();
    while i > 0
        invariant
            i <= values@.len(),
            out@.len() == values@.len() - i,
            forall|k: int|
                0 <= k < out@.len() ==> (#[trigger] out@[k])@ == audio_button(
                    values@[values@.len() - 1 - k],
                ),
        decreases i,
    {
        let numeral = decimal_text(values[i - 1]);
        let mut text = String::from_str("🎵 ");
        text.append(numeral.as_str());
        text.append("k");
        let mut data = String::from_str("dl_audio:");
        data.append(numeral.as_str());
        out.push(button(text, data));
        i -= 1;
    }
    assert(row_content(out@) =~= buttons_reversed(values@, |v: u64| audio_button(v)));
    out
}

proof fn lemma_push_row(rows: Seq<Vec<InlineButton>>, row: Vec<InlineButton>)
    ensures
        keyboard_content(rows.push(row)) == keyboard_content(rows).push(row_content(row@)),
{
    assert(keyboard_content(rows.push(row)) =~= keyboard_content(rows).push(row_content(row@)));
}

fn push_rows(rows: &mut Vec<Vec<InlineButton>>, buttons: Vec<InlineButton>)
    ensures
        keyboard_content(final(rows)@) == keyboard_content(old(rows)@) + in_rows(
            row_content(buttons@),
        ),
{
    let ghost all = row_content(buttons@);
    let ghost start = keyboard_content(rows@);
    let mut row: Vec<InlineButton> = Vec::new();
    assert(start + in_rows(all) =~= keyboard_content(rows@) + in_rows(row_content(row@) + all)) by {
        assert(row_content(row@) + all =~= all);
    }
    assert(all.skip(0) =~= all);
    for b in it: buttons
        invariant
            row_content(it.seq()) == all,
            row@.len() < 3,
            start + in_rows(all) == keyboard_content(rows@) + in_rows(
                row_content(row@) + all.skip(it.index() as int),
            ),
    {
        let ghost rest = all.skip(it.index() as int);
        let ghost before = row@;
        assert(rest[0] == b@);
        row.push(b);
        assert(row_content(row@) =~= row_content(before).push(b@));
        assert(row_content(row@) + all.skip(it.index() + 1) =~= row_content(before) + rest);
        if row.len() == 3 {
            let ghost joined = row_content(row@) + all.skip(it.index() + 1);
            let ghost full = row_content(row@);
            proof {
                lemma_push_row(rows@, row);
                if joined.len() <= 3 {
                    assert(all.skip(it.index() + 1).len() == 0);
                    assert(joined =~= full);
                    assert(in_rows(Seq::<Button>::empty() + all.skip(it.index() + 1)) =~= Seq::<
                        Seq<Button>,
                    >::empty());
                    assert(seq![full] =~= Seq::<Seq<Button>>::empty().push(full));
                } else {
                    assert(joined.take(3) =~= full);
                    assert(joined.skip(3) =~= all.skip(it.index() + 1));
                }
                assert(in_rows(joined) =~= seq![full] + in_rows(all.skip(it.index() + 1)));
            }
            let ghost rows_before = keyboard_content(rows@);
            rows.push(row);
            row = Vec::new();
            assert(row_content(row@) + all.skip(it.index() + 1) =~= all.skip(it.index() + 1));
            assert(rows_before + (seq![full] + in_rows(all.skip(it.index() + 1)))
                =~= rows_before.push(full) + in_rows(all.skip(it.index() + 1)));
        }
    }
    assert(row_content(row@) + all.skip(all.len() as int) =~= row_content(row@));
    if row.len() > 0 {
        proof {
            lemma_push_row(rows@, row);
            assert(keyboard_content(rows@) + seq![row_content(row@)] =~= keyboard_content(
                rows@,
            ).push(row_content(row@)));
        }
        rows.push(row);
    } else {
        assert(keyboard_content(rows@) + in_rows(row_content(row@)) =~= keyboard_content(rows@));
    }
}

fn cancel_inline_button() -> (r: InlineButton)
    ensures
        r@ == cancel_button(),
{
    button(String::from_str("❌ Cancel"), String::from_str("cancel"))
}

/// The buttons for a media: resolutions, bitrates, best and cancel.
pub fn qualities_buttons(qualities: &Qualities) -> (r: Vec<Vec<InlineButton>>)
    ensures
        keyboard_content(r@) == qualities_keyboard(qualities.video@, qualities.audio@),
{
    let mut rows: Vec<Vec<InlineButton>> = Vec::new();
    push_rows(&mut rows, video_buttons(&qualities.video));
    push_rows(&mut rows, audio_buttons(&qualities.audio));
    let mut last: Vec<InlineButton> = Vec::new();
    last.push(button(String::from_str("⚡ Best"), String::from_str("dl:best")));
    last.push(cancel_inline_button());
    assert(row_content(last@) =~= seq![best_button(), cancel_button()]);
    proof {
        lemma_push_row(rows@, last);
    }
    rows.push(last);
    assert(keyboard_content(rows@) =~= qualities_keyboard(qualities.video@, qualities.audio@));
    rows
}

/// The buttons of the keyboard that only cancels.
pub fn cancel_buttons() -> (r: Vec<Vec<InlineButton>>)
    ensures
        keyboard_content(r@) == cancel_keyboard(),
{
    let mut row: Vec<InlineButton> = Vec::new();
    row.push(cancel_inline_button());
    assert(row_content(row@) =~= seq![cancel_button()]);
    let mut rows: Vec<Vec<InlineButton>> = Vec::new();
    proof {
        lemma_push_row(rows@, row);
    }
    rows.push(row);
    assert(keyboard_content(rows@) =~= cancel_keyboard());
    rows
}

/// A button of a keyboard, as `grammers_client` holds it.
#[verifier::external_type_specification]
#[verifier::external_body]
pub struct ExInlineButton(grammers_client::button::Inline);

/// The keyboard of a message, as `grammers_client` holds it.
#[verifier::external_type_specification]
#[verifier::external_body]
pub struct ExInlineMarkup(grammers_client::reply_markup::Inline);

/// What a button holds: its text and the bytes that it sends.
pub uninterp spec fn button_content(b: grammers_client::button::Inline) -> (Seq<char>, Seq<u8>);

/// The rows of a keyboard: what each of its buttons holds.
pub uninterp spec fn markup_rows(m: grammers_client::reply_markup::Inline) -> Seq<
    Seq<(Seq<char>, Seq<u8>)>,
>;

/// A keyboard with its payloads as bytes.
pub open spec fn encoded(rows: Seq<Seq<Button>>) -> Seq<Seq<(Seq<char>, Seq<u8>)>> {
    rows.map_values(|row: Seq<Button>| encoded_row(row))
}

/// A row of a keyboard with its payloads as bytes.
pub open spec fn encoded_row(row: Seq<Button>) -> Seq<(Seq<char>, Seq<u8>)> {
    row.map_values(|b: Button| (b.text, encode_utf8(b.data)))
}

/// What the buttons of a row hold.
pub open spec fn held_row(row: Seq<grammers_client::button::Inline>) -> Seq<(Seq<char>, Seq<u8>)> {
    row.map_values(|b: grammers_client::button::Inline| button_content(b))
}

/// What the buttons of some rows hold.
pub open spec fn held_rows(rows: Seq<Vec<grammers_client::button::Inline>>) -> Seq<
    Seq<(Seq<char>, Seq<u8>)>,
> {
    rows.map_values(|row: Vec<grammers_client::button::Inline>| held_row(row@))
}

/// `grammers_client::button::inline`. The button shows the text, and sends the
/// bytes of the payload.
#[verifier::external_body]
fn inline_button(text: String, data: String) -> (r: grammers_client::button::Inline)
    ensures
        button_content(r) == (text@, encode_utf8(data@)),
{
    grammers_client::button::inline(text, data)
}

/// `grammers_client::reply_markup::inline`. The keyboard holds the rows from top to
/// bottom, and in each its buttons from left to right.
#[verifier::external_body]
fn inline_keyboard(rows: Vec<Vec<grammers_client::button::Inline>>) -> (r:
    grammers_client::reply_markup::Inline)
    ensures
        markup_rows(r) == held_rows(rows@),
{
    grammers_client::reply_markup::inline(rows)
}

fn inline_row(row: &Vec<InlineButton>) -> (r: Vec<grammers_client::button::Inline>)
    ensures
        held_row(r@) == encoded_row(row_content(row@)),
{
    let mut out: Vec<grammers_client::button::Inline> = Vec::new();
    let mut i: usize = 0;
    while i < row.len()
        invariant
            i <= row@.len(),
            out@.len() == i,
            forall|k: int|
                0 <= k < i ==> button_content(#[trigger] out@[k]) == (
                    row@[k].text@,
                    encode_utf8(row@[k].data@),
                ),
        decreases row@.len() - i,
    {
        out.push(inline_button(row[i].text.clone(), row[i].data.clone()));
        i += 1;
    }
    assert(held_row(out@) =~= encoded_row(row_content(row@)));
    out
}

fn inline_markup(rows: &Vec<Vec<InlineButton>>) -> (r: grammers_client::reply_markup::Inline)
    ensures
        markup_rows(r) == encoded(keyboard_content(rows@)),
{
    let mut out: Vec<Vec<grammers_client::button::Inline>> = Vec::new();
    let mut i: usize = 0;
    while i < rows.len()
        invariant
            i <= rows@.len(),
            out@.len() == i,
            forall|k: int|
                0 <= k < i ==> held_row(#[trigger] out@[k]@) == encoded_row(row_content(rows@[k]@)),
        decreases rows@.len() - i,
    {
        out.push(inline_row(&rows[i]));
        i += 1;
    }
    assert(held_rows(out@) =~= encoded(keyboard_content(rows@)));
    inline_keyboard(out)
}

/// Builds the keyboard with resolutions, bitrates, best and cancel.
pub fn build_qualities_inline_markup(qualities: &Qualities) -> (r:
    grammers_client::reply_markup::Inline)
    ensures
        markup_rows(r) == encoded(qualities_keyboard(qualities.video@, qualities.audio@)),
{
    inline_markup(&qualities_buttons(qualities))
}

/// Builds the keyboard that only cancels.
pub fn cancel_markup() -> (r: grammers_client::reply_markup::Inline)
    ensures
        markup_rows(r) == encoded(cancel_keyboard()),
{
    inline_markup(&cancel_buttons())
}

} // verus!
