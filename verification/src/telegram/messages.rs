//! The messages that the bot sends: texts, texts over a keyboard, and media files.

use vstd::prelude::*;

use grammers_client::reply_markup::Inline;
use grammers_client::types::media::Uploaded;
use grammers_client::InputMessage;

use crate::telegram::media::MediaMetadata;
use crate::telegram::menu::cancel_keyboard;
use crate::telegram::menu::cancel_markup;
use crate::telegram::menu::encoded;
use crate::telegram::menu::markup_rows;
use crate::text::copied;
use crate::text::optional_text;

verus! {

/// What Telegram is told of a file in order to play it.
#[derive(Debug, Clone)]
pub enum MediaAttribute {
    Video {
        round_message: bool,
        supports_streaming: bool,
        duration_secs: u64,
        width: i32,
        height: i32,
    },
    Audio { duration_secs: u64, title: Option<String>, performer: Option<String> },
}

/// The content of an attribute.
pub ghost enum Playback {
    Video {
        round_message: bool,
        supports_streaming: bool,
        duration_secs: nat,
        width: int,
        height: int,
    },
    Audio { duration_secs: nat, title: Option<Seq<char>>, performer: Option<Seq<char>> },
}

impl View for MediaAttribute {
    type V = Playback;

    open spec fn view(&self) -> Playback {
        match *self {
            MediaAttribute::Video {
                round_message,
                supports_streaming,
                duration_secs,
                width,
                height,
            } => Playback::Video {
                round_message,
                supports_streaming,
                duration_secs: duration_secs as nat,
                width: width as int,
                height: height as int,
            },
            MediaAttribute::Audio { duration_secs, title, performer } => Playback::Audio {
                duration_secs: duration_secs as nat,
                title: optional_text(title),
                performer: optional_text(performer),
            },
        }
    }
}

/// How a file is played: as a streamed video, as a song, or not at all.
pub open spec fn playback(meta: MediaMetadata) -> Option<Playback> {
    if meta.is_video {
        Some(
            Playback::Video {
                round_message: false,
                supports_streaming: true,
                duration_secs: meta.duration_secs as nat,
                width: meta.width as int,
                height: meta.height as int,
            },
        )
    } else if meta.is_audio {
        Some(
            Playback::Audio {
                duration_secs: meta.duration_secs as nat,
                title: optional_text(meta.title),
                performer: optional_text(meta.artist),
            },
        )
    } else {
        None
    }
}

/// Chooses what Telegram is told of a file in order to play it.
pub fn media_attribute(meta: &MediaMetadata) -> (r: Option<MediaAttribute>)
    ensures
        match r {
            Some(attribute) => playback(*meta) == Some(attribute@),
            None => playback(*meta) is None,
        },
{
    if meta.is_video {
        Some(
            MediaAttribute::Video {
                round_message: false,
                supports_streaming: true,
                duration_secs: meta.duration_secs,
                width: meta.width,
                height: meta.height,
            },
        )
    } else if meta.is_audio {
        Some(
            MediaAttribute::Audio {
                duration_secs: meta.duration_secs,
                title: copied(&meta.title),
                performer: copied(&meta.artist),
            },
        )
    } else {
        None
    }
}

// ---------------------------------------------------------------------------
// The message
// ---------------------------------------------------------------------------

/// A file that was handed to Telegram.
#[verifier::external_type_specification]
#[verifier::external_body]
pub struct ExUploaded(Uploaded);

/// A message that is yet to be sent.
#[verifier::external_type_specification]
#[verifier::external_body]
pub struct ExInputMessage(InputMessage);

/// The file in a message: what it is called, how it is declared, and what was said
/// of it besides its name.
pub ghost struct Document {
    pub file: Uploaded,
    pub mime_type: Seq<char>,
    pub attributes: Seq<Playback>,
}

/// The parts of a message: its text, the rows of its keyboard, the type that its file
/// is declared as, and the file.
pub ghost struct MessageParts {
    pub text: Seq<char>,
    pub keyboard: Option<Seq<Seq<(Seq<char>, Seq<u8>)>>>,
    pub mime_type: Option<Seq<char>>,
    pub document: Option<Document>,
}

/// What a message holds.
pub uninterp spec fn message_parts(m: InputMessage) -> MessageParts;

/// A message without any parts.
pub open spec fn empty_message() -> MessageParts {
    MessageParts { text: Seq::empty(), keyboard: None, mime_type: None, document: None }
}

/// An attribute whose duration Telegram can hold.
pub open spec fn is_representable(attribute: Playback) -> bool {
    attribute matches Playback::Audio { duration_secs, .. } ==> duration_secs <= i32::MAX
}

/// The largest duration of a video that a message is sure to hold as it is: a message
/// holds it as a binary64 number, and these are exact up to here.
pub const EXACT_SECONDS: u64 = 0x20_0000_0000_0000;

/// `held` is what a message holds of `told`: all of it, except that the duration of a
/// video is open above `EXACT_SECONDS`.
pub open spec fn is_held(held: Playback, told: Playback) -> bool {
    match told {
        Playback::Video { round_message, supports_streaming, duration_secs, width, height } => {
            &&& held matches Playback::Video {
                round_message: r,
                supports_streaming: s,
                duration_secs: d,
                width: w,
                height: h,
            }
            &&& r == round_message
            &&& s == supports_streaming
            &&& w == width
            &&& h == height
            &&& duration_secs <= EXACT_SECONDS ==> d == duration_secs
        },
        Playback::Audio { .. } => held == told,
    }
}

/// `post` is `pre` with one more attribute, which is `told`.
pub open spec fn is_extended(post: Option<Document>, pre: Option<Document>, told: Playback) -> bool {
    match pre {
        Some(d) => {
            &&& post matches Some(e)
            &&& e.file == d.file
            &&& e.mime_type == d.mime_type
            &&& e.attributes.len() == d.attributes.len() + 1
            &&& e.attributes.drop_last() == d.attributes
            &&& is_held(e.attributes.last(), told)
        },
        None => post is None,
    }
}

/// `document` is `file`, declared as `mime_type` where there is one, with nothing
/// said of it but its name.
pub open spec fn is_fresh(
    document: Option<Document>,
    file: Uploaded,
    mime_type: Option<Seq<char>>,
) -> bool {
    &&& document matches Some(d)
    &&& d.file == file
    &&& d.attributes == Seq::<Playback>::empty()
    &&& mime_type matches Some(t) ==> d.mime_type == t
}

/// `InputMessage::new`. The message is empty.
#[verifier::external_body]
fn new_message() -> (r: InputMessage)
    ensures
        message_parts(r) == empty_message(),
{
    InputMessage::new()
}

/// `InputMessage::mime_type`. It sets the type that a file set later is declared as.
#[verifier::external_body]
fn with_mime_type(m: InputMessage, mime_type: &str) -> (r: InputMessage)
    ensures
        message_parts(r) == (MessageParts { mime_type: Some(mime_type@), ..message_parts(m) }),
{
    m.mime_type(mime_type)
}

/// `InputMessage::document`. It sets the file, of which nothing but its name is said
/// yet, and declares it as the type that was set. How a file is declared where no
/// type was set is not stated.
#[verifier::external_body]
fn with_document(m: InputMessage, file: Uploaded) -> (r: InputMessage)
    ensures
        message_parts(r).text == message_parts(m).text,
        message_parts(r).keyboard == message_parts(m).keyboard,
        message_parts(r).mime_type == message_parts(m).mime_type,
        is_fresh(message_parts(r).document, file, message_parts(m).mime_type),
{
    m.document(file)
}

/// `InputMessage::text`. It sets the text.
#[verifier::external_body]
fn with_text(m: InputMessage, text: String) -> (r: InputMessage)
    ensures
        message_parts(r) == (MessageParts { text: text@, ..message_parts(m) }),
{
    m.text(text)
}

/// `InputMessage::reply_markup`. It sets the keyboard.
#[verifier::external_body]
fn with_keyboard(m: InputMessage, markup: &Inline) -> (r: InputMessage)
    ensures
        message_parts(r) == (MessageParts {
            keyboard: Some(markup_rows(*markup)),
            ..message_parts(m)
        }),
{
    m.reply_markup(markup)
}

/// `InputMessage::attribute`. It adds to what is said of the file of the message.
/// The duration of a song is kept in 32 bits, and one that does not fit is a panic.
/// That of a video is kept as a binary64 number, and is not stated above
/// `EXACT_SECONDS`.
#[verifier::external_body]
fn with_attribute(m: InputMessage, attribute: MediaAttribute) -> (r: InputMessage)
    requires
        is_representable(attribute@),
    ensures
        message_parts(r).text == message_parts(m).text,
        message_parts(r).keyboard == message_parts(m).keyboard,
        message_parts(r).mime_type == message_parts(m).mime_type,
        is_extended(message_parts(r).document, message_parts(m).document, attribute@),
{
    m.attribute(match attribute {
        MediaAttribute::Video { round_message, supports_streaming, duration_secs, width, height } => {
            grammers_client::types::Attribute::Video {
                round_message,
                supports_streaming,
                duration: std::time::Duration::from_secs(duration_secs),
                w: width,
                h: height,
            }
        }
        MediaAttribute::Audio { duration_secs, title, performer } => {
            let duration = std::time::Duration::from_secs(duration_secs);
            grammers_client::types::Attribute::Audio { duration, title, performer }
        }
    })
}

/// Builds a message that is a text.
pub fn text_message(text: String) -> (r: InputMessage)
    ensures
        message_parts(r) == (MessageParts { text: text@, ..empty_message() }),
{
    with_text(new_message(), text)
}

/// Builds a message that is a text over a keyboard.
pub fn keyboard_message(text: String, markup: &Inline) -> (r: InputMessage)
    ensures
        message_parts(r) == (MessageParts {
            text: text@,
            keyboard: Some(markup_rows(*markup)),
            ..empty_message()
        }),
{
    with_keyboard(with_text(new_message(), text), markup)
}

/// Builds the message that shows how far a download is, over a keyboard that cancels
/// it.
pub fn progress_message(text: String) -> (r: InputMessage)
    ensures
        message_parts(r) == (MessageParts {
            text: text@,
            keyboard: Some(encoded(cancel_keyboard())),
            ..empty_message()
        }),
{
    keyboard_message(text, &cancel_markup())
}

/// `document` is `file` as `meta` describes it.
pub open spec fn carries(document: Option<Document>, file: Uploaded, meta: MediaMetadata) -> bool {
    &&& document matches Some(d)
    &&& d.file == file
    &&& d.mime_type == meta.mime_type@
    &&& match playback(meta) {
        Some(p) => d.attributes.len() == 1 && is_held(d.attributes[0], p),
        None => d.attributes.len() == 0,
    }
}

/// Builds the message that carries an uploaded file.
pub fn build_media_message(uploaded: Uploaded, caption: String, meta: &MediaMetadata) -> (r:
    InputMessage)
    requires
        playback(*meta) matches Some(p) ==> is_representable(p),
    ensures
        message_parts(r).text == caption@,
        message_parts(r).keyboard is None,
        message_parts(r).mime_type == Some(meta.mime_type@),
        carries(message_parts(r).document, uploaded, *meta),
{
    let message = new_message();
    let message = with_mime_type(message, meta.mime_type.as_str());
    let message = with_document(message, uploaded);
    let message = with_text(message, caption);
    match media_attribute(meta) {
        Some(attribute) => with_attribute(message, attribute),
        None => message,
    }
}

/// Tells whether a message can carry the file that `meta` describes.
pub fn can_be_carried(meta: &MediaMetadata) -> (r: bool)
    ensures
        r == (playback(*meta) matches Some(p) ==> is_representable(p)),
{
    meta.is_video || !meta.is_audio || meta.duration_secs <= 0x7fff_ffff
}

// ---------------------------------------------------------------------------
// Laws
// ---------------------------------------------------------------------------


/// A video is sent as a streamed video with its duration and its dimensions, a song
/// with its duration, title and artist, and any other file without any of these.
pub proof fn law_how_files_are_played(meta: MediaMetadata)
    ensures
        meta.is_video ==> playback(meta) == Some(
            Playback::Video {
                round_message: false,
                supports_streaming: true,
                duration_secs: meta.duration_secs as nat,
                width: meta.width as int,
                height: meta.height as int,
            },
        ),
        !meta.is_video && meta.is_audio ==> playback(meta) == Some(
            Playback::Audio {
                duration_secs: meta.duration_secs as nat,
                title: optional_text(meta.title),
                performer: optional_text(meta.artist),
            },
        ),
        !meta.is_video && !meta.is_audio ==> playback(meta) is None,
{
}

/// A message that carries a file holds that file, declared as its type, with what is
/// told of it: of a video all but a duration beyond any media.
pub proof fn law_carried_file(document: Option<Document>, file: Uploaded, meta: MediaMetadata)
    requires
        carries(document, file, meta),
    ensures
        document matches Some(d) && d.file == file && d.mime_type == meta.mime_type@ && (
        meta.is_video ==> d.attributes.len() == 1 && (d.attributes[0] matches Playback::Video {
            round_message,
            supports_streaming,
            duration_secs,
            width,
            height,
        } && !round_message && supports_streaming && width == meta.width && height == meta.height
            && (meta.duration_secs <= 0x20_0000_0000_0000 ==> duration_secs == meta.duration_secs)))
            && (!meta.is_video && meta.is_audio ==> d.attributes == seq![
            Playback::Audio {
                duration_secs: meta.duration_secs as nat,
                title: optional_text(meta.title),
                performer: optional_text(meta.artist),
            },
        ]) && (!meta.is_video && !meta.is_audio ==> d.attributes.len() == 0),
{
    let d = document->0;
    if !meta.is_video && meta.is_audio {
        assert(d.attributes =~= seq![
            Playback::Audio {
                duration_secs: meta.duration_secs as nat,
                title: optional_text(meta.title),
                performer: optional_text(meta.artist),
            },
        ]);
    }
}

/// Every video can be carried, and every song that is not longer than 32 bits of
/// seconds.
pub proof fn law_what_can_be_carried(p: Playback)
    ensures
        p is Video ==> is_representable(p),
        p matches Playback::Audio { duration_secs, .. } ==> (is_representable(p) <==> duration_secs
            <= 0x7fff_ffff),
{
}

/// The content of an attribute is what it holds, and a message begins empty.
pub proof fn law_attribute_content(a: MediaAttribute)
    ensures
        a matches MediaAttribute::Video {
            round_message,
            supports_streaming,
            duration_secs,
            width,
            height,
        } ==> a@ == (Playback::Video {
            round_message,
            supports_streaming,
            duration_secs: duration_secs as nat,
            width: width as int,
            height: height as int,
        }),
        a matches MediaAttribute::Audio { duration_secs, title, performer } ==> a@ == (
        Playback::Audio {
            duration_secs: duration_secs as nat,
            title: optional_text(title),
            performer: optional_text(performer),
        }),
        empty_message().text.len() == 0,
        empty_message().keyboard is None,
        empty_message().mime_type is None,
        empty_message().document is None,
{
}

} // verus!
