//! What a media file is, as `ffprobe` or the report on it tells, and how it is
//! presented to Telegram.

use vstd::prelude::*;

use crate::double::round_down;
use crate::double::rounded_down;
use crate::json::Json;
use crate::json::JsonNumber;
use crate::json::JsonTree;
use crate::json::double_field;
use crate::json::json_text;
use crate::json::parse_json;
use crate::json::signed_field;
use crate::json::text_field;
use crate::json::trees;
use crate::text::lowercase;
use crate::text::optional_text;
use crate::text::push_text;
use crate::text::same_text;
use crate::text::texts;
use crate::text::to_lowercase;

verus! {

/// What is known of a media file.
#[derive(Debug, Clone, PartialEq)]
pub struct MediaMetadata {
    pub is_video: bool,
    pub is_audio: bool,
    pub duration_secs: u64,
    pub width: i32,
    pub height: i32,
    pub mime_type: String,
    pub title: Option<String>,
    pub artist: Option<String>,
}

/// The content of a piece of metadata.
pub ghost struct Metadata {
    pub is_video: bool,
    pub is_audio: bool,
    pub duration_secs: nat,
    pub width: i32,
    pub height: i32,
    pub mime_type: Seq<char>,
    pub title: Option<Seq<char>>,
    pub artist: Option<Seq<char>>,
}

impl View for MediaMetadata {
    type V = Metadata;

    open spec fn view(&self) -> Metadata {
        Metadata {
            is_video: self.is_video,
            is_audio: self.is_audio,
            duration_secs: self.duration_secs as nat,
            width: self.width,
            height: self.height,
            mime_type: self.mime_type@,
            title: optional_text(self.title),
            artist: optional_text(self.artist),
        }
    }
}

// ---------------------------------------------------------------------------
// MIME types
// ---------------------------------------------------------------------------

/// The MIME type of a probed file with the given lower-case extension.
pub open spec fn probed_mime(ext: Seq<char>, is_video: bool, is_audio: bool) -> Seq<char> {
    if ext == "mp4"@ || ext == "m4v"@ {
        "video/mp4"@
    } else if ext == "webm"@ {
        if is_video {
            "video/webm"@
        } else {
            "audio/webm"@
        }
    } else if ext == "mkv"@ {
        "video/x-matroska"@
    } else if ext == "mp3"@ {
        "audio/mpeg"@
    } else if ext == "m4a"@ || ext == "aac"@ {
        "audio/mp4"@
    } else if ext == "ogg"@ || ext == "opus"@ {
        "audio/ogg"@
    } else if ext == "flac"@ {
        "audio/flac"@
    } else if is_video {
        "video/mp4"@
    } else if is_audio {
        "audio/mp4"@
    } else {
        "application/octet-stream"@
    }
}

/// The MIME type of a file with the given lower-case extension that was not
/// probed.
pub open spec fn reported_mime(ext: Seq<char>, is_video: bool) -> Seq<char> {
    if ext == "mp3"@ {
        "audio/mpeg"@
    } else if ext == "m4a"@ || ext == "aac"@ {
        "audio/mp4"@
    } else if ext == "webm"@ {
        if is_video {
            "video/webm"@
        } else {
            "audio/webm"@
        }
    } else if is_video {
        "video/mp4"@
    } else {
        "audio/mp4"@
    }
}

fn choose_probed_mime(ext: &str, is_video: bool, is_audio: bool) -> (r: String)
    ensures
        r@ == probed_mime(ext@, is_video, is_audio),
{
    let mime = if same_text(ext, "mp4") || same_text(ext, "m4v") {
        "video/mp4"
    } else if same_text(ext, "webm") {
        if is_video {
            "video/webm"
        } else {
            "audio/webm"
        }
    } else if same_text(ext, "mkv") {
        "video/x-matroska"
    } else if same_text(ext, "mp3") {
        "audio/mpeg"
    } else if same_text(ext, "m4a") || same_text(ext, "aac") {
        "audio/mp4"
    } else if same_text(ext, "ogg") || same_text(ext, "opus") {
        "audio/ogg"
    } else if same_text(ext, "flac") {
        "audio/flac"
    } else if is_video {
        "video/mp4"
    } else if is_audio {
        "audio/mp4"
    } else {
        "application/octet-stream"
    };
    String::from_str(mime)
}

fn choose_reported_mime(ext: &str, is_video: bool) -> (r: String)
    ensures
        r@ == reported_mime(ext@, is_video),
{
    let mime = if same_text(ext, "mp3") {
        "audio/mpeg"
    } else if same_text(ext, "m4a") || same_text(ext, "aac") {
        "audio/mp4"
    } else if same_text(ext, "webm") {
        if is_video {
            "video/webm"
        } else {
            "audio/webm"
        }
    } else if is_video {
        "video/mp4"
    } else {
        "audio/mp4"
    };
    String::from_str(mime)
}

// ---------------------------------------------------------------------------
// Probing
// ---------------------------------------------------------------------------

/// The streams that a probe lists.
pub open spec fn probe_streams(probe: JsonTree) -> Seq<JsonTree> {
    match probe.field("streams"@) {
        Some(list) => list.items(),
        None => Seq::empty(),
    }
}

/// `stream` is of the given type.
pub open spec fn is_stream(stream: JsonTree, codec_type: Seq<char>) -> bool {
    text_field(stream, "codec_type"@) == Some(codec_type)
}

/// One of `streams` is of the given type.
pub open spec fn has_stream(streams: Seq<JsonTree>, codec_type: Seq<char>) -> bool {
    exists|i: int| 0 <= i < streams.len() && is_stream(#[trigger] streams[i], codec_type)
}

/// A dimension: the named member in 32 bits, or zero.
pub open spec fn dimension(holder: JsonTree, key: Seq<char>) -> i32 {
    match signed_field(holder, key) {
        Some(n) => n as i32,
        None => 0,
    }
}

/// The dimension of a video stream, and zero for any other.
pub open spec fn stream_dimension(stream: JsonTree, key: Seq<char>) -> i32 {
    if is_stream(stream, "video"@) {
        dimension(stream, key)
    } else {
        0
    }
}

/// The first dimension of a video stream that is not zero, or zero.
pub open spec fn first_dimension(streams: Seq<JsonTree>, key: Seq<char>) -> i32
    decreases streams.len(),
{
    if streams.len() == 0 {
        0
    } else if stream_dimension(streams[0], key) != 0 {
        stream_dimension(streams[0], key)
    } else {
        first_dimension(streams.drop_first(), key)
    }
}

/// The durations that the video streams give, in words.
pub open spec fn stream_durations(streams: Seq<JsonTree>) -> Seq<Seq<char>>
    decreases streams.len(),
{
    if streams.len() == 0 {
        Seq::empty()
    } else {
        let rest = stream_durations(streams.drop_last());
        match text_field(streams.last(), "duration"@) {
            Some(text) => if is_stream(streams.last(), "video"@) {
                rest.push(text)
            } else {
                rest
            },
            None => rest,
        }
    }
}

/// The member named `key` of the member named `holder`.
pub open spec fn nested_text(t: JsonTree, holder: Seq<char>, key: Seq<char>) -> Option<Seq<char>> {
    match t.field(holder) {
        Some(v) => text_field(v, key),
        None => None,
    }
}

/// A tag of the container.
pub open spec fn tag(probe: JsonTree, key: Seq<char>) -> Option<Seq<char>> {
    match probe.field("format"@) {
        Some(format) => nested_text(format, "tags"@, key),
        None => None,
    }
}

/// The durations that a probe gives, in words, in the order in which they count:
/// those of the video streams, then that of the container.
pub open spec fn probe_durations(probe: JsonTree) -> Seq<Seq<char>> {
    match nested_text(probe, "format"@, "duration"@) {
        Some(text) => stream_durations(probe_streams(probe)).push(text),
        None => stream_durations(probe_streams(probe)),
    }
}

/// The first of the `readings` that is a second or more, in whole seconds, or
/// zero.
pub open spec fn first_duration(readings: Seq<Option<u64>>) -> nat
    decreases readings.len(),
{
    if readings.len() == 0 {
        0
    } else {
        match readings[0] {
            Some(bits) => if rounded_down(bits) != 0 {
                rounded_down(bits)
            } else {
                first_duration(readings.drop_first())
            },
            None => first_duration(readings.drop_first()),
        }
    }
}

/// What a probe says of a file with the given extension. The `readings` are the
/// durations as numbers, where they are numbers.
pub open spec fn probed_metadata(
    probe: JsonTree,
    readings: Seq<Option<u64>>,
    ext: Seq<char>,
) -> Metadata {
    let streams = probe_streams(probe);
    let is_video = has_stream(streams, "video"@);
    let has_audio = has_stream(streams, "audio"@);
    Metadata {
        is_video,
        is_audio: !is_video && has_audio,
        duration_secs: first_duration(readings),
        width: first_dimension(streams, "width"@),
        height: first_dimension(streams, "height"@),
        mime_type: probed_mime(lowercase(ext), is_video, has_audio),
        title: tag(probe, "title"@),
        artist: tag(probe, "artist"@),
    }
}

fn stream_is(stream: &Json, codec_type: &str) -> (r: bool)
    ensures
        r == is_stream(stream.tree(), codec_type@),
{
    match stream.text_of("codec_type") {
        Some(t) => same_text(t.as_str(), codec_type),
        None => false,
    }
}

fn read_dimension(holder: &Json, key: &str) -> (r: i32)
    ensures
        r == dimension(holder.tree(), key@),
{
    match holder.signed_of(key) {
        Some(n) => #[verifier::truncate] (n as i32),
        None => 0,
    }
}

fn optional_copy(s: Option<&String>) -> (r: Option<String>)
    ensures
        match s {
            Some(s) => r matches Some(t) && t@ == s@,
            None => r is None,
        },
{
    match s {
        Some(s) => Some(s.clone()),
        None => None,
    }
}

fn any_stream(list: &Vec<Json>, codec_type: &str) -> (r: bool)
    ensures
        r == has_stream(trees(list@), codec_type@),
{
    let ghost streams = trees(list@);
    let mut i: usize = 0;
    while i < list.len()
        invariant
            i <= list@.len(),
            streams == trees(list@),
            forall|k: int| 0 <= k < i ==> !is_stream(#[trigger] streams[k], codec_type@),
        decreases list@.len() - i,
    {
        assert(streams[i as int] == list@[i as int].tree());
        if stream_is(&list[i], codec_type) {
            return true;
        }
        i += 1;
    }
    false
}

fn find_dimension(list: &Vec<Json>, key: &str) -> (r: i32)
    ensures
        r == first_dimension(trees(list@), key@),
{
    let ghost streams = trees(list@);
    let mut i: usize = 0;
    assert(streams.skip(0) =~= streams);
    while i < list.len()
        invariant
            i <= list@.len(),
            streams == trees(list@),
            first_dimension(streams, key@) == first_dimension(streams.skip(i as int), key@),
        decreases list@.len() - i,
    {
        assert(streams.skip(i as int)[0] == list@[i as int].tree());
        if stream_is(&list[i], "video") {
            let d = read_dimension(&list[i], key);
            if d != 0 {
                return d;
            }
        }
        assert(streams.skip(i as int).drop_first() =~= streams.skip(i + 1));
        i += 1;
    }
    0
}

/// Lists the durations that a probe gives, in the order in which they count.
pub fn duration_texts(probe: &Json) -> (r: Vec<String>)
    ensures
        texts(r@) == probe_durations(probe.tree()),
{
    let mut out: Vec<String> = Vec::new();
    let ghost streams = probe_streams(probe.tree());
    assert(texts(out@) =~= Seq::<Seq<char>>::empty());
    if let Some(list) = probe.list_of("streams") {
        let mut i: usize = 0;
        assert(streams == trees(list@));
        while i < list.len()
            invariant
                i <= list@.len(),
                streams == trees(list@),
                texts(out@) == stream_durations(streams.take(i as int)),
            decreases list@.len() - i,
        {
            let ghost longer = streams.take(i + 1);
            assert(longer.drop_last() =~= streams.take(i as int));
            assert(longer.last() == list@[i as int].tree());
            if stream_is(&list[i], "video") {
                if let Some(text) = list[i].text_of("duration") {
                    push_text(&mut out, text.as_str());
                }
            }
            i += 1;
        }
        assert(streams.take(i as int) =~= streams);
    }
    assert(texts(out@) == stream_durations(streams));
    if let Some(format) = probe.get("format") {
        if let Some(text) = format.text_of("duration") {
            push_text(&mut out, text.as_str());
        }
    }
    out
}

fn find_duration(readings: &Vec<Option<u64>>) -> (r: u64)
    ensures
        r == first_duration(readings@),
{
    let mut i: usize = 0;
    assert(readings@.skip(0) =~= readings@);
    while i < readings.len()
        invariant
            i <= readings@.len(),
            first_duration(readings@) == first_duration(readings@.skip(i as int)),
        decreases readings@.len() - i,
    {
        assert(readings@.skip(i as int)[0] == readings@[i as int]);
        if let Some(bits) = readings[i] {
            let seconds = round_down(bits);
            if seconds != 0 {
                return seconds;
            }
        }
        assert(readings@.skip(i as int).drop_first() =~= readings@.skip(i + 1));
        i += 1;
    }
    0
}

fn read_tag(probe: &Json, key: &str) -> (r: Option<String>)
    ensures
        optional_text(r) == tag(probe.tree(), key@),
{
    match probe.get("format") {
        Some(format) => match format.get("tags") {
            Some(tags) => optional_copy(tags.text_of(key)),
            None => None,
        },
        None => None,
    }
}

/// The arguments of `ffprobe` that make it describe the file at `path`.
pub open spec fn probe_command(path: Seq<char>) -> Seq<Seq<char>> {
    seq![
        "-v"@,
        "quiet"@,
        "-print_format"@,
        "json"@,
        "-show_format"@,
        "-show_streams"@,
        path,
    ]
}

/// Lists the arguments of `ffprobe` that make it describe the file at `path`.
pub fn probe_args(path: &str) -> (r: Vec<String>)
    ensures
        texts(r@) == probe_command(path@),
{
    let mut args: Vec<String> = Vec::new();
    push_text(&mut args, "-v");
    push_text(&mut args, "quiet");
    push_text(&mut args, "-print_format");
    push_text(&mut args, "json");
    push_text(&mut args, "-show_format");
    push_text(&mut args, "-show_streams");
    push_text(&mut args, path);
    assert(texts(args@) =~= probe_command(path@));
    args
}

/// Reads the output of `ffprobe`; `None` where it failed or printed no JSON.
pub fn read_probe_output(success: bool, stdout: &[u8]) -> (r: Option<Json>)
    ensures
        match r {
            Some(probe) => success && json_text(stdout@) == Some(probe.tree()),
            None => !success || json_text(stdout@) is None,
        },
{
    if success {
        parse_json(stdout)
    } else {
        None
    }
}

/// Reads what a probe says of a file with the given extension. The `readings` are
/// the durations that `duration_texts` lists, as the bits of binary64 numbers,
/// where they are numbers.
pub fn read_probe(probe: &Json, readings: &Vec<Option<u64>>, extension: &str) -> (r: MediaMetadata)
    ensures
        r@ == probed_metadata(probe.tree(), readings@, extension@),
{
    let (is_video, has_audio, width, height) = match probe.list_of("streams") {
        Some(list) => (
            any_stream(list, "video"),
            any_stream(list, "audio"),
            find_dimension(list, "width"),
            find_dimension(list, "height"),
        ),
        None => (false, false, 0, 0),
    };
    let ext = to_lowercase(extension);
    MediaMetadata {
        is_video,
        is_audio: !is_video && has_audio,
        duration_secs: find_duration(readings),
        width,
        height,
        mime_type: choose_probed_mime(ext.as_str(), is_video, has_audio),
        title: read_tag(probe, "title"),
        artist: read_tag(probe, "artist"),
    }
}

// ---------------------------------------------------------------------------
// Without a probe
// ---------------------------------------------------------------------------

/// The download has sound only, as far as the request and the report tell.
pub open spec fn is_audio_only(
    info: Option<JsonTree>,
    res: Option<u64>,
    abr: Option<u64>,
) -> bool {
    (res is None && abr is Some) || match info {
        Some(report) => text_field(report, "vcodec"@) == Some("none"@),
        None => false,
    }
}

/// The artist that a report names; the uploader where it names none.
pub open spec fn report_artist(report: JsonTree) -> Option<Seq<char>> {
    match report.field("artist"@) {
        Some(artist) => artist.text(),
        None => text_field(report, "uploader"@),
    }
}

/// What the report and the request say of a file with the given extension.
pub open spec fn reported_metadata(
    info: Option<JsonTree>,
    res: Option<u64>,
    abr: Option<u64>,
    ext: Seq<char>,
) -> Metadata {
    let is_video = !is_audio_only(info, res, abr);
    Metadata {
        is_video,
        is_audio: !is_video,
        duration_secs: match info {
            Some(report) => match double_field(report, "duration"@) {
                Some(bits) => rounded_down(bits),
                None => 0,
            },
            None => 0,
        },
        width: match info {
            Some(report) => dimension(report, "width"@),
            None => 0,
        },
        height: match info {
            Some(report) => dimension(report, "height"@),
            None => 0,
        },
        mime_type: reported_mime(lowercase(ext), is_video),
        title: match info {
            Some(report) => text_field(report, "title"@),
            None => None,
        },
        artist: match info {
            Some(report) => report_artist(report),
            None => None,
        },
    }
}

/// The content of an optional document.
pub open spec fn optional_tree(info: Option<&Json>) -> Option<JsonTree> {
    match info {
        Some(report) => Some(report.tree()),
        None => None,
    }
}

fn audio_only(info: Option<&Json>, res: Option<u64>, abr: Option<u64>) -> (r: bool)
    ensures
        r == is_audio_only(optional_tree(info), res, abr),
{
    if res.is_none() && abr.is_some() {
        return true;
    }
    match info {
        Some(report) => match report.text_of("vcodec") {
            Some(codec) => same_text(codec.as_str(), "none"),
            None => false,
        },
        None => false,
    }
}

fn read_artist(report: &Json) -> (r: Option<String>)
    ensures
        optional_text(r) == report_artist(report.tree()),
{
    match report.get("artist") {
        Some(artist) => optional_copy(artist.as_text()),
        None => optional_copy(report.text_of("uploader")),
    }
}

/// Reads what the report and the request say of a file with the given extension.
pub fn read_report(
    info: Option<&Json>,
    res: Option<u64>,
    abr: Option<u64>,
    extension: &str,
) -> (r: MediaMetadata)
    ensures
        r@ == reported_metadata(optional_tree(info), res, abr, extension@),
{
    let is_video = !audio_only(info, res, abr);
    let ext = to_lowercase(extension);
    let mime_type = choose_reported_mime(ext.as_str(), is_video);
    match info {
        Some(report) => MediaMetadata {
            is_video,
            is_audio: !is_video,
            duration_secs: match report.double_of("duration") {
                Some(bits) => round_down(bits),
                None => 0,
            },
            width: read_dimension(report, "width"),
            height: read_dimension(report, "height"),
            mime_type,
            title: optional_copy(report.text_of("title")),
            artist: read_artist(report),
        },
        None => MediaMetadata {
            is_video,
            is_audio: !is_video,
            duration_secs: 0,
            width: 0,
            height: 0,
            mime_type,
            title: None,
            artist: None,
        },
    }
}

/// Finds out what a media file is: from its probe, where there is one, or else from
/// the report on it and the request. The `readings` are as in `read_probe`.
pub fn probe_media(
    probe: Option<&Json>,
    readings: &Vec<Option<u64>>,
    info: Option<&Json>,
    res: Option<u64>,
    abr: Option<u64>,
    extension: &str,
) -> (r: MediaMetadata)
    ensures
        r@ == match probe {
            Some(p) => probed_metadata(p.tree(), readings@, extension@),
            None => reported_metadata(optional_tree(info), res, abr, extension@),
        },
{
    match probe {
        Some(p) => read_probe(p, readings, extension),
        None => read_report(info, res, abr, extension),
    }
}

// ---------------------------------------------------------------------------
// Streamable files
// ---------------------------------------------------------------------------

/// A file with this extension can have its index moved to the front.
pub open spec fn has_index(ext: Seq<char>) -> bool {
    ||| lowercase(ext) == "mp4"@
    ||| lowercase(ext) == "m4v"@
    ||| lowercase(ext) == "mov"@
}

/// Tells whether a file with this extension can have its index moved to the front.
pub fn needs_faststart(extension: &str) -> (r: bool)
    ensures
        r == has_index(extension@),
{
    let ext = to_lowercase(extension);
    same_text(ext.as_str(), "mp4") || same_text(ext.as_str(), "m4v") || same_text(
        ext.as_str(),
        "mov",
    )
}

/// The arguments of `ffmpeg` that make it write `input` to `output` with its index
/// at the front.
pub open spec fn faststart_command(input: Seq<char>, output: Seq<char>) -> Seq<Seq<char>> {
    seq!["-y"@, "-i"@, input, "-c"@, "copy"@, "-movflags"@, "+faststart"@, output]
}

/// Lists the arguments of `ffmpeg` that make it write `input` to `output` with its
/// index at the front.
pub fn faststart_args(input: &str, output: &str) -> (r: Vec<String>)
    ensures
        texts(r@) == faststart_command(input@, output@),
{
    let mut args: Vec<String> = Vec::new();
    push_text(&mut args, "-y");
    push_text(&mut args, "-i");
    push_text(&mut args, input);
    push_text(&mut args, "-c");
    push_text(&mut args, "copy");
    push_text(&mut args, "-movflags");
    push_text(&mut args, "+faststart");
    push_text(&mut args, output);
    assert(texts(args@) =~= faststart_command(input@, output@));
    args
}

/// What becomes of the file that `ffmpeg` wrote.
#[derive(Debug, Clone, Copy, PartialEq, Eq)]
pub enum FaststartStep {
    /// It takes the place of the file that it was made from.
    Replace,
    /// It is deleted.
    Discard,
    /// Nothing: `ffmpeg` did not run.
    Leave,
}

/// Decides what becomes of the file that `ffmpeg` wrote. The `success` is that of
/// `ffmpeg`, where it ran, and `written` tells whether the file is there.
pub fn after_faststart(success: Option<bool>, written: bool) -> (r: FaststartStep)
    ensures
        r is Replace <==> success == Some(true) && written,
        r is Leave <==> success is None,
{
    match success {
        Some(success) => if success && written {
            FaststartStep::Replace
        } else {
            FaststartStep::Discard
        },
        None => FaststartStep::Leave,
    }
}

// ---------------------------------------------------------------------------
// Laws
// ---------------------------------------------------------------------------

/// A file is shown as a video or as a song, never as both; without a probe it is
/// always one of the two.
pub proof fn law_one_kind(
    probe: JsonTree,
    readings: Seq<Option<u64>>,
    info: Option<JsonTree>,
    res: Option<u64>,
    abr: Option<u64>,
    ext: Seq<char>,
)
    ensures
        !(probed_metadata(probe, readings, ext).is_video && probed_metadata(
            probe,
            readings,
            ext,
        ).is_audio),
        reported_metadata(info, res, abr, ext).is_audio == !reported_metadata(
            info,
            res,
            abr,
            ext,
        ).is_video,
{
}

/// A file is a video wherever its video stream stands among its streams, and a song
/// exactly where it has a stream with sound and none with a picture.
pub proof fn law_kind_by_streams(
    probe: JsonTree,
    items: Seq<JsonTree>,
    readings: Seq<Option<u64>>,
    ext: Seq<char>,
    i: int,
    j: int,
)
    requires
        probe.field("streams"@) == Some(JsonTree::List(items)),
        0 <= i < items.len(),
        0 <= j < items.len(),
    ensures
        items[i].field("codec_type"@) == Some(JsonTree::Text("video"@)) ==> probed_metadata(
            probe,
            readings,
            ext,
        ).is_video && !probed_metadata(probe, readings, ext).is_audio,
        (forall|k: int|
            0 <= k < items.len() ==> (#[trigger] items[k]).field("codec_type"@) != Some(
                JsonTree::Text("video"@),
            )) ==> !probed_metadata(probe, readings, ext).is_video,
        (forall|k: int|
            0 <= k < items.len() ==> (#[trigger] items[k]).field("codec_type"@) != Some(
                JsonTree::Text("video"@),
            )) && items[j].field("codec_type"@) == Some(JsonTree::Text("audio"@))
            ==> probed_metadata(probe, readings, ext).is_audio,
        (forall|k: int|
            0 <= k < items.len() ==> (#[trigger] items[k]).field("codec_type"@) != Some(
                JsonTree::Text("audio"@),
            )) ==> !probed_metadata(probe, readings, ext).is_audio,
{
    let streams = probe_streams(probe);
    assert(streams == items);
    if items[i].field("codec_type"@) == Some(JsonTree::Text("video"@)) {
        assert(is_stream(streams[i], "video"@));
    }
    if items[j].field("codec_type"@) == Some(JsonTree::Text("audio"@)) {
        assert(is_stream(streams[j], "audio"@));
    }
}

/// A probe that lists no streams is of neither kind, without dimensions.
pub proof fn law_no_streams(probe: JsonTree, readings: Seq<Option<u64>>, ext: Seq<char>)
    requires
        probe.field("streams"@) matches Some(JsonTree::List(items)) ==> items.len() == 0,
    ensures
        !probed_metadata(probe, readings, ext).is_video,
        !probed_metadata(probe, readings, ext).is_audio,
        probed_metadata(probe, readings, ext).width == 0,
        probed_metadata(probe, readings, ext).height == 0,
{
}

/// The dimensions of a file are those of its first video stream that gives one, in 32
/// bits each.
pub proof fn law_dimensions_of_first(
    probe: JsonTree,
    items: Seq<JsonTree>,
    readings: Seq<Option<u64>>,
    ext: Seq<char>,
    key: Seq<char>,
    k: int,
    n: JsonNumber,
    value: i64,
)
    requires
        probe.field("streams"@) == Some(JsonTree::List(items)),
        0 <= k < items.len(),
        items[k].field("codec_type"@) == Some(JsonTree::Text("video"@)),
        items[k].field(key) == Some(JsonTree::Number(n)),
        n.signed == Some(value),
        value as i32 != 0,
        key == "width"@ || key == "height"@,
        forall|j: int|
            0 <= j < k ==> (#[trigger] items[j]).field("codec_type"@) != Some(
                JsonTree::Text("video"@),
            ) || !(items[j].field(key) matches Some(JsonTree::Number(m)) && (
            m.signed matches Some(v) && v as i32 != 0)),
    ensures
        key == "width"@ ==> probed_metadata(probe, readings, ext).width == value as i32,
        key == "height"@ ==> probed_metadata(probe, readings, ext).height == value as i32,
{
    lemma_first_dimension(items, key, k);
}

proof fn lemma_first_dimension(items: Seq<JsonTree>, key: Seq<char>, k: int)
    requires
        0 <= k < items.len(),
        stream_dimension(items[k], key) != 0,
        forall|j: int| 0 <= j < k ==> stream_dimension(#[trigger] items[j], key) == 0,
    ensures
        first_dimension(items, key) == stream_dimension(items[k], key),
    decreases items.len(),
{
    if k > 0 {
        let rest = items.drop_first();
        assert(stream_dimension(items[0], key) == 0);
        assert forall|j: int| 0 <= j < k - 1 implies stream_dimension(#[trigger] rest[j], key)
            == 0 by {
            assert(rest[j] == items[j + 1]);
        }
        lemma_first_dimension(rest, key, k - 1);
    }
}

/// Where no video stream gives a dimension, it is zero.
pub proof fn law_no_dimension(
    probe: JsonTree,
    items: Seq<JsonTree>,
    readings: Seq<Option<u64>>,
    ext: Seq<char>,
    key: Seq<char>,
)
    requires
        probe.field("streams"@) == Some(JsonTree::List(items)),
        key == "width"@ || key == "height"@,
        forall|j: int|
            0 <= j < items.len() ==> (#[trigger] items[j]).field("codec_type"@) != Some(
                JsonTree::Text("video"@),
            ) || !(items[j].field(key) matches Some(JsonTree::Number(m)) && (
            m.signed matches Some(v) && v as i32 != 0)),
    ensures
        key == "width"@ ==> probed_metadata(probe, readings, ext).width == 0,
        key == "height"@ ==> probed_metadata(probe, readings, ext).height == 0,
{
    assert forall|j: int| 0 <= j < items.len() implies stream_dimension(#[trigger] items[j], key)
        == 0 by {
        assert(items[j] == items[j]);
    }
    lemma_no_dimension(items, key);
}

proof fn lemma_no_dimension(items: Seq<JsonTree>, key: Seq<char>)
    requires
        forall|j: int| 0 <= j < items.len() ==> stream_dimension(#[trigger] items[j], key) == 0,
    ensures
        first_dimension(items, key) == 0,
    decreases items.len(),
{
    if items.len() > 0 {
        let rest = items.drop_first();
        assert(stream_dimension(items[0], key) == 0);
        assert forall|j: int| 0 <= j < rest.len() implies stream_dimension(#[trigger] rest[j], key)
            == 0 by {
            assert(rest[j] == items[j + 1]);
        }
        lemma_no_dimension(rest, key);
    }
}

/// The duration is the first of the readings that is a second or more, without its
/// fraction; where there is none, it is zero.
pub proof fn law_duration_is_the_first(
    probe: JsonTree,
    readings: Seq<Option<u64>>,
    ext: Seq<char>,
    k: int,
    bits: u64,
)
    requires
        0 <= k < readings.len() ==> readings[k] == Some(bits) && rounded_down(bits) > 0,
        0 <= k <= readings.len(),
        forall|j: int|
            0 <= j < k ==> (#[trigger] readings[j] matches Some(b) ==> rounded_down(b) == 0),
    ensures
        k < readings.len() ==> probed_metadata(probe, readings, ext).duration_secs == rounded_down(
            bits,
        ),
        k == readings.len() ==> probed_metadata(probe, readings, ext).duration_secs == 0,
    decreases readings.len(),
{
    if readings.len() > 0 && k > 0 {
        let rest = readings.drop_first();
        assert(readings[0] matches Some(b) ==> rounded_down(b) == 0);
        assert forall|j: int| 0 <= j < k - 1 implies (#[trigger] rest[j] matches Some(b)
            ==> rounded_down(b) == 0) by {
            assert(rest[j] == readings[j + 1]);
        }
        law_duration_is_the_first(probe, rest, ext, k - 1, bits);
    }
}

/// The durations that count are those of the video streams in their order, and then
/// that of the container.
pub proof fn law_durations_in_order(
    probe: JsonTree,
    items: Seq<JsonTree>,
    last: JsonTree,
    text: Seq<char>,
)
    requires
        probe.field("streams"@) == Some(JsonTree::List(items)),
    ensures
        stream_durations(Seq::empty()).len() == 0,
        last.field("codec_type"@) == Some(JsonTree::Text("video"@)) && last.field("duration"@)
            == Some(JsonTree::Text(text)) ==> stream_durations(items.push(last))
            == stream_durations(items).push(text),
        last.field("codec_type"@) != Some(JsonTree::Text("video"@)) || !(
        last.field("duration"@) matches Some(JsonTree::Text(_))) ==> stream_durations(
            items.push(last),
        ) == stream_durations(items),
        (probe.field("format"@) matches Some(f) && f.field("duration"@) == Some(
            JsonTree::Text(text),
        )) ==> probe_durations(probe) == stream_durations(items).push(text),
        !(probe.field("format"@) matches Some(f) && (f.field("duration"@) matches Some(
            JsonTree::Text(_),
        ))) ==> probe_durations(probe) == stream_durations(items),
{
    assert(items.push(last).drop_last() =~= items);
}

/// The title and the artist of a probed file are the tags of its container, where
/// they are texts.
pub proof fn law_tags(
    probe: JsonTree,
    readings: Seq<Option<u64>>,
    ext: Seq<char>,
    format: JsonTree,
    tags: JsonTree,
    text: Seq<char>,
)
    requires
        probe.field("format"@) == Some(format),
        format.field("tags"@) == Some(tags),
    ensures
        tags.field("title"@) == Some(JsonTree::Text(text)) ==> probed_metadata(
            probe,
            readings,
            ext,
        ).title == Some(text),
        tags.field("artist"@) == Some(JsonTree::Text(text)) ==> probed_metadata(
            probe,
            readings,
            ext,
        ).artist == Some(text),
        !(tags.field("title"@) matches Some(JsonTree::Text(_))) ==> probed_metadata(
            probe,
            readings,
            ext,
        ).title is None,
        !(tags.field("artist"@) matches Some(JsonTree::Text(_))) ==> probed_metadata(
            probe,
            readings,
            ext,
        ).artist is None,
{
}

/// A container without tags has neither title nor artist.
pub proof fn law_no_tags(probe: JsonTree, readings: Seq<Option<u64>>, ext: Seq<char>)
    requires
        !(probe.field("format"@) matches Some(f) && f.field("tags"@) is Some),
    ensures
        probed_metadata(probe, readings, ext).title is None,
        probed_metadata(probe, readings, ext).artist is None,
{
}

/// What a probed file is sent as: by its extension, in capitals or not, and for an
/// extension that is not known by its streams.
pub proof fn law_type_of_probed(
    probe: JsonTree,
    items: Seq<JsonTree>,
    readings: Seq<Option<u64>>,
    ext: Seq<char>,
)
    requires
        probe.field("streams"@) == Some(JsonTree::List(items)),
    ensures
        ({
            let m = probed_metadata(probe, readings, ext);
            let e = lowercase(ext);
            let sound = exists|k: int|
                0 <= k < items.len() && (#[trigger] items[k]).field("codec_type"@) == Some(
                    JsonTree::Text("audio"@),
                );
            &&& e == "mp4"@ || e == "m4v"@ ==> m.mime_type == "video/mp4"@
            &&& e == "webm"@ && m.is_video ==> m.mime_type == "video/webm"@
            &&& e == "webm"@ && !m.is_video ==> m.mime_type == "audio/webm"@
            &&& e == "mkv"@ ==> m.mime_type == "video/x-matroska"@
            &&& e == "mp3"@ ==> m.mime_type == "audio/mpeg"@
            &&& e == "m4a"@ || e == "aac"@ ==> m.mime_type == "audio/mp4"@
            &&& e == "ogg"@ || e == "opus"@ ==> m.mime_type == "audio/ogg"@
            &&& e == "flac"@ ==> m.mime_type == "audio/flac"@
            &&& e != "mp4"@ && e != "m4v"@ && e != "webm"@ && e != "mkv"@ && e != "mp3"@ && e
                != "m4a"@ && e != "aac"@ && e != "ogg"@ && e != "opus"@ && e != "flac"@ ==> m.mime_type
                == (if m.is_video {
                "video/mp4"@
            } else if sound {
                "audio/mp4"@
            } else {
                "application/octet-stream"@
            })
        }),
{
    lemma_extensions_differ();
    assert(probe_streams(probe) == items);
    let sound = exists|k: int|
        0 <= k < items.len() && (#[trigger] items[k]).field("codec_type"@) == Some(
            JsonTree::Text("audio"@),
        );
    assert(sound == has_stream(items, "audio"@)) by {
        if sound {
            let k = choose|k: int|
                0 <= k < items.len() && (#[trigger] items[k]).field("codec_type"@) == Some(
                    JsonTree::Text("audio"@),
                );
            assert(is_stream(items[k], "audio"@));
        }
        if has_stream(items, "audio"@) {
            let k = choose|k: int| 0 <= k < items.len() && is_stream(#[trigger] items[k], "audio"@);
            assert(items[k].field("codec_type"@) == Some(JsonTree::Text("audio"@)));
        }
    }
}

proof fn lemma_extensions_differ()
    ensures
        "mp4"@ != "webm"@ && "m4v"@ != "webm"@ && "mkv"@ != "webm"@,
        "mkv"@ != "mp4"@ && "mkv"@ != "m4v"@,
        "mp3"@ != "mp4"@ && "mp3"@ != "m4v"@ && "mp3"@ != "webm"@ && "mp3"@ != "mkv"@,
        "m4a"@ != "mp4"@ && "m4a"@ != "m4v"@ && "m4a"@ != "webm"@ && "m4a"@ != "mkv"@ && "m4a"@
            != "mp3"@,
        "aac"@ != "mp4"@ && "aac"@ != "m4v"@ && "aac"@ != "webm"@ && "aac"@ != "mkv"@ && "aac"@
            != "mp3"@,
        "ogg"@ != "mp4"@ && "ogg"@ != "m4v"@ && "ogg"@ != "webm"@ && "ogg"@ != "mkv"@ && "ogg"@
            != "mp3"@ && "ogg"@ != "m4a"@ && "ogg"@ != "aac"@,
        "opus"@ != "mp4"@ && "opus"@ != "m4v"@ && "opus"@ != "webm"@ && "opus"@ != "mkv"@
            && "opus"@ != "mp3"@ && "opus"@ != "m4a"@ && "opus"@ != "aac"@,
        "flac"@ != "mp4"@ && "flac"@ != "m4v"@ && "flac"@ != "webm"@ && "flac"@ != "mkv"@
            && "flac"@ != "mp3"@ && "flac"@ != "m4a"@ && "flac"@ != "aac"@ && "flac"@ != "ogg"@
            && "flac"@ != "opus"@,
{
    reveal_strlit("mp4");
    reveal_strlit("m4v");
    reveal_strlit("webm");
    reveal_strlit("mkv");
    reveal_strlit("mp3");
    reveal_strlit("m4a");
    reveal_strlit("aac");
    reveal_strlit("ogg");
    reveal_strlit("opus");
    reveal_strlit("flac");
    assert("mp4"@[1] == 'p' && "mp4"@[2] == '4');
    assert("m4v"@[1] == '4' && "m4v"@[2] == 'v');
    assert("webm"@.len() == 4 && "webm"@[0] == 'w');
    assert("mkv"@[1] == 'k');
    assert("mp3"@[1] == 'p' && "mp3"@[2] == '3');
    assert("m4a"@[1] == '4' && "m4a"@[2] == 'a');
    assert("aac"@[0] == 'a');
    assert("ogg"@[0] == 'o');
    assert("opus"@[0] == 'o' && "opus"@.len() == 4);
    assert("flac"@[0] == 'f');
}

/// Without a probe, a file is a song where only a bitrate was asked for, or where the
/// report says that it has no picture; else it is a video.
pub proof fn law_kind_without_probe(
    info: JsonTree,
    res: Option<u64>,
    abr: Option<u64>,
    ext: Seq<char>,
)
    ensures
        reported_metadata(Some(info), res, abr, ext).is_audio <==> (res is None && abr is Some)
            || info.field("vcodec"@) == Some(JsonTree::Text("none"@)),
        reported_metadata(None, res, abr, ext).is_audio <==> res is None && abr is Some,
        reported_metadata(Some(info), res, abr, ext).is_video == !reported_metadata(
            Some(info),
            res,
            abr,
            ext,
        ).is_audio,
{
}

/// Without a probe, the duration, the dimensions and the title are those of the
/// report, and the artist is that of the report or else its uploader.
pub proof fn law_report_stands_in(
    info: JsonTree,
    res: Option<u64>,
    abr: Option<u64>,
    ext: Seq<char>,
    n: JsonNumber,
    bits: u64,
    value: i64,
    text: Seq<char>,
)
    ensures
        ({
            let m = reported_metadata(Some(info), res, abr, ext);
            &&& info.field("duration"@) == Some(JsonTree::Number(n)) && n.double == Some(bits)
                ==> m.duration_secs == rounded_down(bits)
            &&& !(info.field("duration"@) matches Some(JsonTree::Number(_))) ==> m.duration_secs
                == 0
            &&& info.field("width"@) == Some(JsonTree::Number(n)) && n.signed == Some(value)
                ==> m.width == value as i32
            &&& !(info.field("width"@) matches Some(JsonTree::Number(_))) ==> m.width == 0
            &&& info.field("height"@) == Some(JsonTree::Number(n)) && n.signed == Some(value)
                ==> m.height == value as i32
            &&& !(info.field("height"@) matches Some(JsonTree::Number(_))) ==> m.height == 0
            &&& info.field("title"@) == Some(JsonTree::Text(text)) ==> m.title == Some(text)
            &&& !(info.field("title"@) matches Some(JsonTree::Text(_))) ==> m.title is None
            &&& info.field("artist"@) == Some(JsonTree::Text(text)) ==> m.artist == Some(text)
            &&& info.field("artist"@) is Some && !(info.field("artist"@) matches Some(
                JsonTree::Text(_),
            )) ==> m.artist is None
            &&& info.field("artist"@) is None && info.field("uploader"@) == Some(
                JsonTree::Text(text),
            ) ==> m.artist == Some(text)
            &&& info.field("artist"@) is None && !(info.field("uploader"@) matches Some(
                JsonTree::Text(_),
            )) ==> m.artist is None
        }),
        ({
            let m = reported_metadata(None, res, abr, ext);
            m.duration_secs == 0 && m.width == 0 && m.height == 0 && m.title is None && m.artist
                is None
        }),
{
}

/// What a file is sent as without a probe: by its extension, in capitals or not.
pub proof fn law_type_without_probe(
    info: Option<JsonTree>,
    res: Option<u64>,
    abr: Option<u64>,
    ext: Seq<char>,
)
    ensures
        ({
            let m = reported_metadata(info, res, abr, ext);
            let e = lowercase(ext);
            &&& e == "mp3"@ ==> m.mime_type == "audio/mpeg"@
            &&& e == "m4a"@ || e == "aac"@ ==> m.mime_type == "audio/mp4"@
            &&& e == "webm"@ && m.is_video ==> m.mime_type == "video/webm"@
            &&& e == "webm"@ && m.is_audio ==> m.mime_type == "audio/webm"@
            &&& e != "mp3"@ && e != "m4a"@ && e != "aac"@ && e != "webm"@ && m.is_video
                ==> m.mime_type == "video/mp4"@
            &&& e != "mp3"@ && e != "m4a"@ && e != "aac"@ && e != "webm"@ && m.is_audio
                ==> m.mime_type == "audio/mp4"@
        }),
{
    lemma_extensions_differ();
    reveal_strlit("webm");
    reveal_strlit("m4a");
    reveal_strlit("aac");
    assert("webm"@.len() == 4 && "m4a"@.len() == 3 && "aac"@.len() == 3);
}

/// The index of a file is moved to the front where its extension is one of three, in
/// capitals or not.
pub proof fn law_files_with_index(ext: Seq<char>)
    ensures
        has_index(ext) <==> lowercase(ext) == "mp4"@ || lowercase(ext) == "m4v"@ || lowercase(ext)
            == "mov"@,
{
}

/// The command lines of the tools.
pub proof fn law_tools(path: Seq<char>, output: Seq<char>)
    ensures
        probe_command(path) == seq![
            "-v"@,
            "quiet"@,
            "-print_format"@,
            "json"@,
            "-show_format"@,
            "-show_streams"@,
            path,
        ],
        faststart_command(path, output) == seq![
            "-y"@,
            "-i"@,
            path,
            "-c"@,
            "copy"@,
            "-movflags"@,
            "+faststart"@,
            output,
        ],
{
}

/// The content of a piece of metadata is what it holds.
pub proof fn law_metadata_content(m: MediaMetadata, info: Option<&Json>)
    ensures
        m@.is_video == m.is_video,
        m@.is_audio == m.is_audio,
        m@.duration_secs == m.duration_secs,
        m@.width == m.width,
        m@.height == m.height,
        m@.mime_type == m.mime_type@,
        m@.title == optional_text(m.title),
        m@.artist == optional_text(m.artist),
        info matches Some(j) ==> optional_tree(info) == Some(j.tree()),
        info is None ==> optional_tree(info) is None,
{
}

} // verus!
