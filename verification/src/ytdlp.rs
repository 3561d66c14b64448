//! The `yt-dlp` side: its command lines, and what its reports say of a media.

use std::collections::BTreeSet;

use vstd::prelude::*;
use vstd::std_specs::btree::group_btree_axioms;

use crate::double::round_up;
use crate::double::rounded_up;
use crate::json::Json;
use crate::json::JsonNumber;
use crate::json::JsonTree;
use crate::json::double_field;
use crate::json::json_text;
use crate::json::parse_json;
use crate::json::text_field;
use crate::json::trees;
use crate::json::unsigned_field;
use crate::numeral::all_digits;
use crate::numeral::decimal;
use crate::numeral::decimal_text;
use crate::numeral::is_digit;
use crate::numeral::law_u64_round_trip;
use crate::numeral::lemma_decimal_digits;
use crate::text::push_text;
use crate::text::same_text;
use crate::text::texts;

verus! {

broadcast use group_btree_axioms;

// ---------------------------------------------------------------------------
// Standard steps
// ---------------------------------------------------------------------------

/// The standard video steps, in pixels of the smallest dimension.
pub const VIDEO_STEPS: [u64; 9] = [144, 240, 360, 480, 720, 1080, 1440, 2160, 4320];

/// The standard audio steps, in kbps.
pub const AUDIO_STEPS: [u64; 3] = [128, 192, 320];

/// The first of `steps` that is not below `value`, or `value` above them all.
pub open spec fn snapped(value: u64, steps: Seq<u64>) -> u64
    decreases steps.len(),
{
    if steps.len() == 0 {
        value
    } else if steps[0] >= value {
        steps[0]
    } else {
        snapped(value, steps.drop_first())
    }
}

/// `value`, or the last of `steps` where it is above them.
pub open spec fn capped(value: u64, steps: Seq<u64>) -> u64 {
    if steps.len() > 0 && value > steps.last() {
        steps.last()
    } else {
        value
    }
}

/// The step that is offered for `value`: the first one that is not below it, or the
/// last one.
pub open spec fn offered_step(value: u64, steps: Seq<u64>) -> u64 {
    snapped(capped(value, steps), steps)
}

/// Each item is above the one before it.
pub open spec fn ascending(s: Seq<u64>) -> bool {
    forall|i: int, j: int| 0 <= i < j < s.len() ==> s[i] < s[j]
}

/// `list` holds the rounded `values`, each once, in ascending order.
pub open spec fn is_snapped_list(list: Seq<u64>, values: Set<u64>, steps: Seq<u64>) -> bool {
    &&& ascending(list)
    &&& forall|q: u64| #[trigger]
        list.contains(q) <==> exists|v: u64| #[trigger] values.contains(v) && snapped(v, steps) == q
}

fn snap_value(value: u64, steps: &[u64]) -> (r: u64)
    ensures
        r == snapped(value, steps@),
{
    let mut i: usize = 0;
    assert(steps@.skip(0) =~= steps@);
    while i < steps.len()
        invariant
            i <= steps@.len(),
            snapped(value, steps@) == snapped(value, steps@.skip(i as int)),
        decreases steps@.len() - i,
    {
        if steps[i] >= value {
            return steps[i];
        }
        assert(steps@.skip(i as int).drop_first() =~= steps@.skip(i + 1));
        i += 1;
    }
    value
}

proof fn lemma_set_order(s: Seq<&u64>)
    requires
        vstd::std_specs::btree::increasing_seq(s),
    ensures
        ascending(s.unref()),
{
    broadcast use vstd::laws_eq::group_laws_eq;
    broadcast use vstd::laws_cmp::group_laws_cmp;

    reveal(vstd::laws_eq::obeys_eq_spec_properties);
    reveal(vstd::laws_cmp::obeys_partial_cmp_spec_properties);
    reveal(vstd::laws_cmp::obeys_cmp_partial_ord);
    reveal(vstd::laws_cmp::obeys_cmp_ord);
    assert(vstd::laws_cmp::obeys_cmp::<u64>());
    assert(vstd::laws_eq::obeys_eq::<&u64>());
    assert(vstd::laws_cmp::obeys_cmp::<&u64>());
    assert forall|i: int, j: int| 0 <= i < j < s.len() implies s.unref()[i] < s.unref()[j] by {
        assert(vstd::std_specs::cmp::OrdSpec::cmp_spec(&s[i], &s[j]) is Less);
    }
}

fn ascending_list(values: &BTreeSet<u64>) -> (r: Vec<u64>)
    ensures
        ascending(r@),
        r@.to_set() == values@,
{
    let mut out: Vec<u64> = Vec::new();
    let ghost refs = vstd::std_specs::iter::IteratorSpec::remaining(
        &vstd::std_specs::btree::spec_btree_keys_iter(values),
    );
    let ghost order = refs.unref();
    proof {
        vstd::std_specs::btree::axiom_spec_btree_keys_iter(values);
        lemma_set_order(refs);
    }
    for v in it: values.iter()
        invariant
            order == it.seq().unref(),
            out@ == order.take(it.index() as int),
            order.to_set() == values@,
            ascending(order),
    {
        out.push(*v);
    }
    assert(out@ =~= order);
    out
}

fn add_value(values: &mut BTreeSet<u64>, value: u64)
    ensures
        final(values)@ == old(values)@.insert(value),
{
    broadcast use vstd::laws_cmp::group_laws_cmp;

    values.insert(value);
}

/// Rounds values up onto the standard steps and removes the duplicates that this
/// makes.
pub fn snap(values: &BTreeSet<u64>, steps: &[u64]) -> (r: Vec<u64>)
    ensures
        is_snapped_list(r@, values@, steps@),
{
    let list = ascending_list(values);
    let mut onto: BTreeSet<u64> = BTreeSet::new();
    let mut i: usize = 0;
    while i < list.len()
        invariant
            i <= list@.len(),
            forall|q: u64| #[trigger]
                onto@.contains(q) <==> exists|k: int|
                    0 <= k < i && snapped(#[trigger] list@[k], steps@) == q,
        decreases list@.len() - i,
    {
        let ghost before = onto@;
        let q = snap_value(list[i], steps);
        add_value(&mut onto, q);
        proof {
            assert(onto@ == before.insert(q));
            assert forall|p: u64| #[trigger] onto@.contains(p) implies exists|k: int|
                0 <= k < i + 1 && snapped(#[trigger] list@[k], steps@) == p by {
                if p == q {
                    assert(snapped(list@[i as int], steps@) == p);
                } else {
                    assert(before.contains(p));
                }
            }
        }
        i += 1;
    }
    let out = ascending_list(&onto);
    proof {
        assert forall|q: u64| #[trigger] out@.contains(q) implies exists|v: u64| #[trigger]
            values@.contains(v) && snapped(v, steps@) == q by {
            assert(onto@.contains(q));
            let k = choose|k: int|
                0 <= k < list@.len() && snapped(#[trigger] list@[k], steps@) == q;
            assert(list@.to_set().contains(list@[k]));
        }
        assert forall|q: u64|
            (exists|v: u64| #[trigger] values@.contains(v) && snapped(v, steps@) == q) implies
            #[trigger] out@.contains(q) by {
            let v = choose|v: u64| #[trigger] values@.contains(v) && snapped(v, steps@) == q;
            assert(list@.to_set().contains(v));
            let k = choose|k: int| 0 <= k < list@.len() && list@[k] == v;
            assert(snapped(list@[k], steps@) == q);
            assert(onto@.contains(q));
            assert(out@.to_set().contains(q));
        }
    }
    out
}

// ---------------------------------------------------------------------------
// Reports
// ---------------------------------------------------------------------------

/// The resolutions a media offers, in the units of the matching `-S` field:
/// `video` is the smallest dimension in pixels, `audio` is the average bitrate in
/// kbps. Values are rounded up to the standard steps, and down to the last one above
/// it, ascending, without duplicates.
#[derive(Debug)]
pub struct Qualities {
    pub video: Vec<u64>,
    pub audio: Vec<u64>,
}

/// The smallest dimension of a format that has a picture and a known height.
pub open spec fn format_resolution(format: JsonTree) -> Option<u64> {
    if text_field(format, "vcodec"@) == Some("none"@) {
        None
    } else {
        match (unsigned_field(format, "width"@), unsigned_field(format, "height"@)) {
            (_, None) => None,
            (None, Some(height)) => Some(height),
            (Some(width), Some(height)) => Some(
                if width <= height {
                    width
                } else {
                    height
                },
            ),
        }
    }
}

/// The bitrate of a format that has sound and a known bitrate, rounded up.
pub open spec fn format_bitrate(format: JsonTree) -> Option<u64> {
    if text_field(format, "acodec"@) == Some("none"@) {
        None
    } else {
        match double_field(format, "abr"@) {
            Some(bits) => Some(rounded_up(bits) as u64),
            None => None,
        }
    }
}

/// The formats that a report lists.
pub open spec fn report_formats(info: JsonTree) -> Seq<JsonTree> {
    match info.field("formats"@) {
        Some(list) => list.items(),
        None => Seq::empty(),
    }
}

/// An optional value, brought to at most the last of `steps`.
pub open spec fn capped_value(value: Option<u64>, steps: Seq<u64>) -> Option<u64> {
    match value {
        Some(v) => Some(capped(v, steps)),
        None => None,
    }
}

/// The resolutions among `formats`, each brought to at most the last step.
pub open spec fn resolutions(formats: Seq<JsonTree>) -> Set<u64> {
    Set::new(
        |v: u64|
            exists|i: int|
                0 <= i < formats.len() && capped_value(
                    format_resolution(#[trigger] formats[i]),
                    VIDEO_STEPS@,
                ) == Some(v),
    )
}

/// The bitrates among `formats`, each brought to at most the last step.
pub open spec fn bitrates(formats: Seq<JsonTree>) -> Set<u64> {
    Set::new(
        |v: u64|
            exists|i: int|
                0 <= i < formats.len() && capped_value(
                    format_bitrate(#[trigger] formats[i]),
                    AUDIO_STEPS@,
                ) == Some(v),
    )
}

/// `r` is what a media with the given report offers.
pub open spec fn offers(r: Qualities, info: JsonTree) -> bool {
    let formats = report_formats(info);
    &&& is_snapped_list(r.video@, resolutions(formats), VIDEO_STEPS@)
    &&& is_snapped_list(r.audio@, bitrates(formats), AUDIO_STEPS@)
}

fn codec_is_none(format: &Json, key: &str) -> (r: bool)
    ensures
        r == (text_field(format.tree(), key@) == Some("none"@)),
{
    match format.text_of(key) {
        Some(codec) => same_text(codec.as_str(), "none"),
        None => false,
    }
}

fn read_resolution(format: &Json) -> (r: Option<u64>)
    ensures
        r == format_resolution(format.tree()),
{
    if codec_is_none(format, "vcodec") {
        return None;
    }
    let width = format.unsigned_of("width");
    match format.unsigned_of("height") {
        Some(height) => match width {
            Some(width) => if width <= height {
                Some(width)
            } else {
                Some(height)
            },
            None => Some(height),
        },
        None => None,
    }
}

fn read_bitrate(format: &Json) -> (r: Option<u64>)
    ensures
        r == format_bitrate(format.tree()),
{
    if codec_is_none(format, "acodec") {
        return None;
    }
    match format.double_of("abr") {
        Some(bits) => Some(round_up(bits)),
        None => None,
    }
}

fn cap_value(value: u64, steps: &[u64]) -> (r: u64)
    ensures
        r == capped(value, steps@),
{
    let n = steps.len();
    if n > 0 && value > steps[n - 1] {
        steps[n - 1]
    } else {
        value
    }
}

/// Extracts the qualities of a media from its report.
pub fn extract_qualities(info: &Json) -> (r: Qualities)
    ensures
        offers(r, info.tree()),
{
    let mut video: BTreeSet<u64> = BTreeSet::new();
    let mut audio: BTreeSet<u64> = BTreeSet::new();
    let ghost formats = report_formats(info.tree());
    if let Some(list) = info.list_of("formats") {
        assert(formats == trees(list@));
        let mut i: usize = 0;
        while i < list.len()
            invariant
                i <= list@.len(),
                formats == trees(list@),
                forall|v: u64| #[trigger]
                    video@.contains(v) <==> exists|k: int|
                        0 <= k < i && capped_value(format_resolution(#[trigger] formats[k]), VIDEO_STEPS@) == Some(v),
                forall|v: u64| #[trigger]
                    audio@.contains(v) <==> exists|k: int|
                        0 <= k < i && capped_value(format_bitrate(#[trigger] formats[k]), AUDIO_STEPS@) == Some(v),
            decreases list@.len() - i,
        {
            let format = &list[i];
            let ghost seen_video = video@;
            let ghost seen_audio = audio@;
            assert(formats[i as int] == format.tree());
            let resolution = read_resolution(format);
            if let Some(value) = resolution {
                add_value(&mut video, cap_value(value, &VIDEO_STEPS));
            }
            let bitrate = read_bitrate(format);
            if let Some(value) = bitrate {
                add_value(&mut audio, cap_value(value, &AUDIO_STEPS));
            }
            proof {
                assert forall|v: u64| #[trigger] video@.contains(v) implies exists|k: int|
                    0 <= k < i + 1 && capped_value(format_resolution(#[trigger] formats[k]), VIDEO_STEPS@) == Some(v) by {
                    if !seen_video.contains(v) {
                        assert(capped_value(format_resolution(formats[i as int]), VIDEO_STEPS@) == Some(v));
                    }
                }
                assert forall|v: u64|
                    (exists|k: int|
                        0 <= k < i + 1 && capped_value(format_resolution(#[trigger] formats[k]), VIDEO_STEPS@) == Some(v)) implies #[trigger] video@.contains(v) by {
                    let k = choose|k: int|
                        0 <= k < i + 1 && capped_value(format_resolution(#[trigger] formats[k]), VIDEO_STEPS@) == Some(v);
                    if k < i {
                        assert(seen_video.contains(v));
                    }
                }
                assert forall|v: u64| #[trigger] audio@.contains(v) implies exists|k: int|
                    0 <= k < i + 1 && capped_value(format_bitrate(#[trigger] formats[k]), AUDIO_STEPS@) == Some(v) by {
                    if !seen_audio.contains(v) {
                        assert(capped_value(format_bitrate(formats[i as int]), AUDIO_STEPS@) == Some(v));
                    }
                }
                assert forall|v: u64|
                    (exists|k: int|
                        0 <= k < i + 1 && capped_value(format_bitrate(#[trigger] formats[k]), AUDIO_STEPS@) == Some(v)) implies #[trigger] audio@.contains(v) by {
                    let k = choose|k: int|
                        0 <= k < i + 1 && capped_value(format_bitrate(#[trigger] formats[k]), AUDIO_STEPS@) == Some(v);
                    if k < i {
                        assert(seen_audio.contains(v));
                    }
                }
            }
            i += 1;
        }
    }
    assert(video@ =~= resolutions(formats));
    assert(audio@ =~= bitrates(formats));
    Qualities { video: snap(&video, &VIDEO_STEPS), audio: snap(&audio, &AUDIO_STEPS) }
}

/// The name of the file that a report announces.
pub open spec fn report_filename(info: JsonTree) -> Seq<char> {
    match first_download(info) {
        Some(dl) => match text_field(dl, "filename"@) {
            Some(name) => name,
            None => unnamed(text_field(dl, "ext"@)),
        },
        None => unnamed(text_field(info, "ext"@)),
    }
}

/// The first of the requested downloads, where it is an object.
pub open spec fn first_download(info: JsonTree) -> Option<JsonTree> {
    match info.field("requested_downloads"@) {
        Some(list) => if list.items().len() > 0 && list.items()[0] is Object {
            Some(list.items()[0])
        } else {
            None
        },
        None => None,
    }
}

/// The name of a file without a title.
pub open spec fn unnamed(ext: Option<Seq<char>>) -> Seq<char> {
    "unknown_title."@ + match ext {
        Some(ext) => ext,
        None => "bin"@,
    }
}

/// The title that a report gives.
pub open spec fn report_title(info: JsonTree) -> Seq<char> {
    match text_field(info, "title"@) {
        Some(title) => title,
        None => "Media"@,
    }
}

fn unnamed_file(holder: &Json) -> (r: String)
    ensures
        r@ == unnamed(text_field(holder.tree(), "ext"@)),
{
    let mut name = String::from_str("unknown_title.");
    match holder.text_of("ext") {
        Some(ext) => name.append(ext.as_str()),
        None => name.append("bin"),
    }
    name
}

/// Extracts the name of the downloaded file, or a fallback, from a report.
pub fn extract_filename(info: &Json) -> (r: String)
    ensures
        r@ == report_filename(info.tree()),
{
    if let Some(list) = info.list_of("requested_downloads") {
        if list.len() > 0 {
            let dl = &list[0];
            assert(trees(list@)[0] == dl.tree());
            if let Json::Object(_) = dl {
                return match dl.text_of("filename") {
                    Some(name) => name.clone(),
                    None => unnamed_file(dl),
                };
            }
        }
    }
    unnamed_file(info)
}

/// Extracts the title of the media, or a fallback, from a report.
pub fn extract_title(info: &Json) -> (r: String)
    ensures
        r@ == report_title(info.tree()),
{
    match info.text_of("title") {
        Some(title) => title.clone(),
        None => String::from_str("Media"),
    }
}

// ---------------------------------------------------------------------------
// Command lines
// ---------------------------------------------------------------------------

/// The `-S` expression for the requested quality.
pub open spec fn sort_expression(res: Option<u64>, abr: Option<u64>) -> Seq<char> {
    match (res, abr) {
        (None, None) => Seq::empty(),
        (Some(res), None) => "res:"@ + decimal(res as nat),
        (None, Some(abr)) => "abr:"@ + decimal(abr as nat),
        (Some(res), Some(abr)) => "res:"@ + decimal(res as nat) + ","@ + "abr:"@ + decimal(
            abr as nat,
        ),
    }
}

/// Builds the `-S` expression for the requested quality.
pub fn build_sort(res: Option<u64>, abr: Option<u64>) -> (r: String)
    ensures
        r@ == sort_expression(res, abr),
{
    let mut out = String::new();
    if let Some(res) = res {
        out.append("res:");
        out.append(decimal_text(res).as_str());
        assert(out@ =~= "res:"@ + decimal(res as nat));
    }
    if let Some(abr) = abr {
        if res.is_some() {
            out.append(",");
        }
        out.append("abr:");
        out.append(decimal_text(abr).as_str());
    }
    assert(out@ =~= sort_expression(res, abr));
    out
}

/// The flags that every command line holds.
pub open spec fn common_flags() -> Seq<Seq<char>> {
    seq![
        "--abort-on-error"@,
        "--no-playlist"@,
        "--retries"@,
        "5"@,
        "--downloader-args"@,
        "ffmpeg:-preset ultrafast -c copy"@,
        "--no-embed-thumbnail"@,
        "--no-embed-metadata"@,
        "-f"@,
        "b/bv*+ba"@,
    ]
}

/// A command line: the leading arguments, the common flags and the sort
/// expression, where there is one.
pub open spec fn command_line(lead: Seq<Seq<char>>, sort: Option<Seq<char>>) -> Seq<Seq<char>> {
    match sort {
        Some(sort) => lead + common_flags() + seq!["-S"@, sort],
        None => lead + common_flags(),
    }
}

/// A request to `yt-dlp`: a media address and a quality to prefer.
#[derive(Debug)]
pub struct Ytdlp {
    pub url: String,
    pub sort: Option<String>,
}

/// The report on a media could not be read.
#[derive(Debug, Clone, Copy, PartialEq, Eq)]
pub struct InfoError;

impl Ytdlp {
    /// The sort expression of this request.
    pub open spec fn sort_text(self) -> Option<Seq<char>> {
        match self.sort {
            Some(sort) => Some(sort@),
            None => None,
        }
    }

    /// A request for `url`.
    pub fn new(url: &str, sort: Option<String>) -> (r: Self)
        ensures
            r.url@ == url@,
            r.sort == sort,
    {
        Ytdlp { url: String::from_str(url), sort }
    }

    fn push_options(&self, args: &mut Vec<String>)
        ensures
            texts(final(args)@) == command_line(texts(old(args)@), self.sort_text()),
    {
        let ghost lead = texts(args@);
        push_text(args, "--abort-on-error");
        push_text(args, "--no-playlist");
        push_text(args, "--retries");
        push_text(args, "5");
        push_text(args, "--downloader-args");
        push_text(args, "ffmpeg:-preset ultrafast -c copy");
        push_text(args, "--no-embed-thumbnail");
        push_text(args, "--no-embed-metadata");
        push_text(args, "-f");
        push_text(args, "b/bv*+ba");
        assert(texts(args@) =~= lead + common_flags());
        if let Some(sort) = &self.sort {
            push_text(args, "-S");
            push_text(args, sort.as_str());
            assert(texts(args@) =~= lead + common_flags() + seq!["-S"@, sort@]);
        }
    }

    /// The arguments that make `yt-dlp` print its report on the media.
    pub fn info_args(&self) -> (r: Vec<String>)
        ensures
            texts(r@) == command_line(seq!["-J"@, self.url@], self.sort_text()),
    {
        let mut args: Vec<String> = Vec::new();
        push_text(&mut args, "-J");
        push_text(&mut args, self.url.as_str());
        assert(texts(args@) =~= seq!["-J"@, self.url@]);
        self.push_options(&mut args);
        args
    }

    /// The arguments that make `yt-dlp` write the media to its output.
    pub fn download_args(&self) -> (r: Vec<String>)
        ensures
            texts(r@) == command_line(seq!["-o"@, "-"@, self.url@], self.sort_text()),
    {
        let mut args: Vec<String> = Vec::new();
        push_text(&mut args, "-o");
        push_text(&mut args, "-");
        push_text(&mut args, self.url.as_str());
        assert(texts(args@) =~= seq!["-o"@, "-"@, self.url@]);
        self.push_options(&mut args);
        args
    }

    /// Reads what `yt-dlp` printed: a report, `None` for another document, an error
    /// for anything else.
    pub fn get_info(stdout: &[u8]) -> (r: Result<Option<Json>, InfoError>)
        ensures
            match r {
                Ok(Some(info)) => json_text(stdout@) == Some(info.tree()) && is_report(info.tree()),
                Ok(None) => json_text(stdout@) matches Some(document) && !is_report(document),
                Err(_) => json_text(stdout@) is None,
            },
    {
        match parse_json(stdout) {
            Some(document) => Ok(report_of(document)),
            None => Err(InfoError),
        }
    }
}

/// The report that a document is: an object, and nothing else.
pub open spec fn is_report(document: JsonTree) -> bool {
    document is Object
}

/// The report in a document, where it is one.
pub fn report_of(document: Json) -> (r: Option<Json>)
    ensures
        match r {
            Some(info) => is_report(document.tree()) && info == document,
            None => !is_report(document.tree()),
        },
{
    match document {
        Json::Object(_) => Some(document),
        _ => None,
    }
}

/// The target of the signal that ends a process group, for the group's number as
/// the system gives it. A failed query gives no target, and neither does a number
/// that stands for more than one group.
pub fn group_signal_target(pgid: i32) -> (r: Option<i32>)
    ensures
        pgid > 1 ==> r == Some((-pgid) as i32),
        pgid <= 1 ==> r is None,
{
    if pgid > 1 {
        Some(-pgid)
    } else {
        None
    }
}

// ---------------------------------------------------------------------------
// Laws
// ---------------------------------------------------------------------------

proof fn lemma_snapped(value: u64, steps: Seq<u64>)
    ensures
        value <= snapped(value, steps),
        steps.contains(snapped(value, steps)) || (snapped(value, steps) == value && forall|i: int|
            0 <= i < steps.len() ==> steps[i] < value),
        forall|i: int| 0 <= i < steps.len() && ascending(steps) && steps[i] >= value
            ==> snapped(value, steps) <= #[trigger] steps[i],
    decreases steps.len(),
{
    if steps.len() > 0 {
        let rest = steps.drop_first();
        if steps[0] < value {
            lemma_snapped(value, rest);
            assert forall|i: int| 0 <= i < steps.len() && ascending(steps) && steps[i] >= value
                implies snapped(value, steps) <= #[trigger] steps[i] by {
                assert(ascending(rest)) by {
                    assert forall|a: int, b: int| 0 <= a < b < rest.len() implies rest[a]
                        < rest[b] by {
                        assert(steps[a + 1] < steps[b + 1]);
                    }
                }
                assert(rest[i - 1] == steps[i]);
            }
            if rest.contains(snapped(value, rest)) {
                let k = choose|k: int| 0 <= k < rest.len() && rest[k] == snapped(value, rest);
                assert(steps[k + 1] == snapped(value, steps));
            } else {
                assert forall|i: int| 0 <= i < steps.len() implies steps[i] < value by {
                    if i > 0 {
                        assert(rest[i - 1] == steps[i]);
                    }
                }
            }
        } else {
            assert(steps[0] == snapped(value, steps));
        }
    }
}

proof fn lemma_ascending_unique(a: Seq<u64>, b: Seq<u64>)
    requires
        ascending(a),
        ascending(b),
        forall|q: u64| #[trigger] a.contains(q) <==> b.contains(q),
    ensures
        a == b,
    decreases a.len(),
{
    if a.len() == 0 {
        if b.len() > 0 {
            assert(b.contains(b[0]));
            assert(a.contains(b[0]));
        }
        assert(a =~= b);
    } else {
        assert(a.contains(a.last()));
        assert(b.contains(a.last()));
        assert(b.contains(b.last()));
        assert(a.contains(b.last()));
        let x = choose|x: int| 0 <= x < b.len() && b[x] == a.last();
        let y = choose|y: int| 0 <= y < a.len() && a[y] == b.last();
        assert(a.last() == b.last());
        let c = a.drop_last();
        let d = b.drop_last();
        assert forall|q: u64| #[trigger] c.contains(q) <==> d.contains(q) by {
            if c.contains(q) {
                let k = choose|k: int| 0 <= k < c.len() && c[k] == q;
                assert(a[k] == q && a[k] < a.last());
                assert(a.contains(q));
                assert(b.contains(q));
                let m = choose|m: int| 0 <= m < b.len() && b[m] == q;
                assert(m < d.len() && d[m] == q);
            }
            if d.contains(q) {
                let k = choose|k: int| 0 <= k < d.len() && d[k] == q;
                assert(b[k] == q && b[k] < b.last());
                assert(b.contains(q));
                assert(a.contains(q));
                let m = choose|m: int| 0 <= m < a.len() && a[m] == q;
                assert(m < c.len() && c[m] == q);
            }
        }
        lemma_ascending_unique(c, d);
        assert(a =~= c.push(a.last()));
        assert(b =~= d.push(b.last()));
    }
}

/// A report says exactly what is offered.
pub proof fn law_offers_unique(a: Qualities, b: Qualities, info: JsonTree)
    requires
        offers(a, info),
        offers(b, info),
    ensures
        a.video@ == b.video@,
        a.audio@ == b.audio@,
{
    lemma_ascending_unique(a.video@, b.video@);
    lemma_ascending_unique(a.audio@, b.audio@);
}

/// Every format with a picture is covered: the step for its resolution is offered,
/// and is not below it unless the resolution is above the last step.
pub proof fn law_resolution_covered(q: Qualities, info: JsonTree, i: int, v: u64)
    requires
        offers(q, info),
        0 <= i < report_formats(info).len(),
        format_resolution(report_formats(info)[i]) == Some(v),
    ensures
        q.video@.contains(offered_step(v, VIDEO_STEPS@)),
        v <= 4320 ==> v <= offered_step(v, VIDEO_STEPS@),
        v > 4320 ==> offered_step(v, VIDEO_STEPS@) == 4320,
{
    assert(resolutions(report_formats(info)).contains(capped(v, VIDEO_STEPS@)));
    lemma_steps_ascend();
    law_rounded_to_step(capped(v, VIDEO_STEPS@), VIDEO_STEPS@);
    assert(VIDEO_STEPS@[8] == 4320);
}

/// Every format with sound is covered: the step for its bitrate is offered, and is
/// not below it unless the bitrate is above the last step.
pub proof fn law_bitrate_covered(q: Qualities, info: JsonTree, i: int, v: u64)
    requires
        offers(q, info),
        0 <= i < report_formats(info).len(),
        format_bitrate(report_formats(info)[i]) == Some(v),
    ensures
        q.audio@.contains(offered_step(v, AUDIO_STEPS@)),
        v <= 320 ==> v <= offered_step(v, AUDIO_STEPS@),
        v > 320 ==> offered_step(v, AUDIO_STEPS@) == 320,
{
    assert(bitrates(report_formats(info)).contains(capped(v, AUDIO_STEPS@)));
    lemma_steps_ascend();
    law_rounded_to_step(capped(v, AUDIO_STEPS@), AUDIO_STEPS@);
    assert(AUDIO_STEPS@[2] == 320);
}

/// The resolution of a format is its smallest dimension.
pub proof fn law_smallest_dimension(format: JsonTree, v: u64)
    requires
        format_resolution(format) == Some(v),
    ensures
        unsigned_field(format, "height"@) matches Some(height) && v <= height,
        unsigned_field(format, "width"@) matches Some(width) ==> v <= width,
        unsigned_field(format, "height"@) == Some(v) || unsigned_field(format, "width"@) == Some(v),
{
}

/// Every offered resolution stands for an existing format: as a cap, it admits that
/// format, unless the format is above the last step.
pub proof fn law_offered_resolution_exists(q: Qualities, info: JsonTree, n: u64)
    requires
        offers(q, info),
        q.video@.contains(n),
    ensures
        exists|i: int, v: u64|
            0 <= i < report_formats(info).len() && format_resolution(
                #[trigger] report_formats(info)[i],
            ) == Some(v) && #[trigger] offered_step(v, VIDEO_STEPS@) == n && (v <= n || v > 4320),
{
    let formats = report_formats(info);
    let c = choose|c: u64| #[trigger]
        resolutions(formats).contains(c) && snapped(c, VIDEO_STEPS@) == n;
    let i = choose|i: int|
        0 <= i < formats.len() && capped_value(
            format_resolution(#[trigger] formats[i]),
            VIDEO_STEPS@,
        ) == Some(c);
    let v = format_resolution(formats[i])->0;
    lemma_snapped(c, VIDEO_STEPS@);
    assert(VIDEO_STEPS@[8] == 4320);
    assert(format_resolution(report_formats(info)[i]) == Some(v));
    assert(offered_step(v, VIDEO_STEPS@) == n);
}

/// Every offered bitrate stands for an existing format: as a cap, it admits that
/// format, unless the format is above the last step.
pub proof fn law_offered_bitrate_exists(q: Qualities, info: JsonTree, n: u64)
    requires
        offers(q, info),
        q.audio@.contains(n),
    ensures
        exists|i: int, v: u64|
            0 <= i < report_formats(info).len() && format_bitrate(
                #[trigger] report_formats(info)[i],
            ) == Some(v) && #[trigger] offered_step(v, AUDIO_STEPS@) == n && (v <= n || v > 320),
{
    let formats = report_formats(info);
    let c = choose|c: u64| #[trigger]
        bitrates(formats).contains(c) && snapped(c, AUDIO_STEPS@) == n;
    let i = choose|i: int|
        0 <= i < formats.len() && capped_value(
            format_bitrate(#[trigger] formats[i]),
            AUDIO_STEPS@,
        ) == Some(c);
    let v = format_bitrate(formats[i])->0;
    lemma_snapped(c, AUDIO_STEPS@);
    assert(AUDIO_STEPS@[2] == 320);
    assert(format_bitrate(report_formats(info)[i]) == Some(v));
    assert(offered_step(v, AUDIO_STEPS@) == n);
}

/// Rounding onto the steps gives the next step that is not below the value. Above
/// the last step a value stays as it is.
pub proof fn law_rounded_to_step(value: u64, steps: Seq<u64>)
    requires
        ascending(steps),
    ensures
        value <= snapped(value, steps),
        steps.len() > 0 && value <= steps.last() ==> steps.contains(snapped(value, steps)),
        forall|i: int| 0 <= i < steps.len() && steps[i] >= value ==> snapped(value, steps)
            <= #[trigger] steps[i],
        (forall|i: int| 0 <= i < steps.len() ==> steps[i] < value) ==> snapped(value, steps)
            == value,
{
    lemma_snapped(value, steps);
    if steps.len() > 0 && value <= steps.last() {
        assert(steps[steps.len() - 1] >= value);
    }
    if forall|i: int| 0 <= i < steps.len() ==> steps[i] < value {
        if steps.contains(snapped(value, steps)) {
            let k = choose|k: int| 0 <= k < steps.len() && steps[k] == snapped(value, steps);
            assert(steps[k] < value);
        }
    }
}

proof fn lemma_steps_ascend()
    ensures
        ascending(VIDEO_STEPS@),
        ascending(AUDIO_STEPS@),
{
}

/// Only standard steps are ever offered.
pub proof fn law_only_standard_steps(q: Qualities, info: JsonTree)
    requires
        offers(q, info),
    ensures
        forall|n: u64| #[trigger] q.video@.contains(n) ==> VIDEO_STEPS@.contains(n),
        forall|n: u64| #[trigger] q.audio@.contains(n) ==> AUDIO_STEPS@.contains(n),
{
    let formats = report_formats(info);
    lemma_steps_ascend();
    assert forall|n: u64| #[trigger] q.video@.contains(n) implies VIDEO_STEPS@.contains(n) by {
        let c = choose|c: u64| #[trigger]
            resolutions(formats).contains(c) && snapped(c, VIDEO_STEPS@) == n;
        law_rounded_to_step(c, VIDEO_STEPS@);
    }
    assert forall|n: u64| #[trigger] q.audio@.contains(n) implies AUDIO_STEPS@.contains(n) by {
        let c = choose|c: u64| #[trigger]
            bitrates(formats).contains(c) && snapped(c, AUDIO_STEPS@) == n;
        law_rounded_to_step(c, AUDIO_STEPS@);
    }
}

/// The format selector is the same in every command line, and comes right after the
/// leading arguments with the other common flags.
pub proof fn law_format_selector(lead: Seq<Seq<char>>, sort: Option<Seq<char>>)
    ensures
        command_line(lead, sort).len() >= lead.len() + 10,
        command_line(lead, sort).subrange(lead.len() as int, lead.len() as int + 10) == common_flags(),
        common_flags()[8] == "-f"@,
        common_flags()[9] == "b/bv*+ba"@,
{
    assert(command_line(lead, sort).subrange(lead.len() as int, lead.len() as int + 10)
        =~= common_flags());
}

/// A request has an empty sort expression only where it names no quality.
pub proof fn law_sort_empty(res: Option<u64>, abr: Option<u64>)
    ensures
        sort_expression(res, abr).len() == 0 <==> res is None && abr is None,
{
    reveal_strlit("res:");
    reveal_strlit("abr:");
}

proof fn lemma_digits_then_comma(a: Seq<char>, b: Seq<char>, c: Seq<char>, d: Seq<char>)
    requires
        all_digits(a),
        all_digits(b),
        a + (seq![','] + c) == b + (seq![','] + d),
    ensures
        a == b,
        c == d,
{
    let x = a + (seq![','] + c);
    let y = b + (seq![','] + d);
    if a.len() < b.len() {
        assert(x[a.len() as int] == ',');
        assert(y[a.len() as int] == b[a.len() as int]);
        assert(is_digit(b[a.len() as int]));
    } else if b.len() < a.len() {
        assert(y[b.len() as int] == ',');
        assert(x[b.len() as int] == a[b.len() as int]);
        assert(is_digit(a[b.len() as int]));
    } else {
        assert(a =~= x.take(a.len() as int));
        assert(b =~= y.take(b.len() as int));
        assert(c =~= x.skip(a.len() as int + 1));
        assert(d =~= y.skip(b.len() as int + 1));
    }
}

proof fn lemma_digits_are_not_followed(a: Seq<char>, b: Seq<char>, c: Seq<char>)
    requires
        all_digits(a),
    ensures
        a != b + (seq![','] + c),
{
    if a == b + (seq![','] + c) {
        assert(a[b.len() as int] == ',');
        assert(is_digit(a[b.len() as int]));
    }
}

/// Different requests have different sort expressions.
pub proof fn law_sort_distinct(
    res: Option<u64>,
    abr: Option<u64>,
    other_res: Option<u64>,
    other_abr: Option<u64>,
)
    requires
        sort_expression(res, abr) == sort_expression(other_res, other_abr),
    ensures
        res == other_res,
        abr == other_abr,
{
    reveal_strlit("res:");
    reveal_strlit("abr:");
    reveal_strlit(",");
    let x = sort_expression(res, abr);
    let y = sort_expression(other_res, other_abr);
    law_sort_empty(res, abr);
    law_sort_empty(other_res, other_abr);
    if x.len() > 0 {
        assert(x[0] == if res is Some { 'r' } else { 'a' });
        assert(y[0] == if other_res is Some { 'r' } else { 'a' });
    }
    if let (Some(r), Some(o)) = (res, other_res) {
        lemma_decimal_digits(r as nat);
        lemma_decimal_digits(o as nat);
        let a = decimal(r as nat);
        let b = decimal(o as nat);
        law_u64_round_trip(r);
        law_u64_round_trip(o);
        match (abr, other_abr) {
            (None, None) => {
                assert(x.skip(4) =~= a);
                assert(y.skip(4) =~= b);
            },
            (Some(m), None) => {
                let c = "abr:"@ + decimal(m as nat);
                assert(x.skip(4) =~= a + (seq![','] + c));
                assert(y.skip(4) =~= b);
                lemma_digits_are_not_followed(b, a, c);
            },
            (None, Some(n)) => {
                let d = "abr:"@ + decimal(n as nat);
                assert(x.skip(4) =~= a);
                assert(y.skip(4) =~= b + (seq![','] + d));
                lemma_digits_are_not_followed(a, b, d);
            },
            (Some(m), Some(n)) => {
                let c = "abr:"@ + decimal(m as nat);
                let d = "abr:"@ + decimal(n as nat);
                assert(x.skip(4) =~= a + (seq![','] + c));
                assert(y.skip(4) =~= b + (seq![','] + d));
                lemma_digits_then_comma(a, b, c, d);
                assert(c.skip(4) =~= decimal(m as nat));
                assert(d.skip(4) =~= decimal(n as nat));
                law_u64_round_trip(m);
                law_u64_round_trip(n);
            },
        }
    } else if let (Some(m), Some(n)) = (abr, other_abr) {
        assert(x.skip(4) =~= decimal(m as nat));
        assert(y.skip(4) =~= decimal(n as nat));
        law_u64_round_trip(m);
        law_u64_round_trip(n);
    }
}

/// `n` is the step for `value` among `steps`: it is one of them, and the lowest that
/// is not below the value, or else the last.
pub open spec fn is_step_for(n: u64, value: u64, steps: Seq<u64>) -> bool {
    &&& steps.contains(n)
    &&& value <= n || n == steps.last()
    &&& forall|k: int| 0 <= k < steps.len() && value <= #[trigger] steps[k] ==> n <= steps[k]
}

/// The smallest dimension of a format: of its width and height, or its height where
/// no width is known.
pub open spec fn is_smallest(v: u64, format: JsonTree) -> bool {
    &&& format.field("height"@) matches Some(JsonTree::Number(height))
    &&& height.unsigned matches Some(h)
    &&& match format.field("width"@) {
        Some(JsonTree::Number(JsonNumber { unsigned: Some(w), .. })) => v == w && w <= h || v == h
            && h <= w,
        _ => v == h,
    }
}

proof fn lemma_video_steps()
    ensures
        VIDEO_STEPS@ == seq![144u64, 240, 360, 480, 720, 1080, 1440, 2160, 4320],
        AUDIO_STEPS@ == seq![128u64, 192, 320],
{
    assert(VIDEO_STEPS@ =~= seq![144u64, 240, 360, 480, 720, 1080, 1440, 2160, 4320]);
    assert(AUDIO_STEPS@ =~= seq![128u64, 192, 320]);
}

proof fn lemma_offered_step(v: u64, steps: Seq<u64>)
    requires
        ascending(steps),
        steps.len() > 0,
    ensures
        is_step_for(offered_step(v, steps), v, steps),
{
    let c = capped(v, steps);
    lemma_snapped(c, steps);
    law_rounded_to_step(c, steps);
    assert(steps[steps.len() - 1] == steps.last());
    if v > steps.last() {
        assert(snapped(c, steps) <= steps[steps.len() - 1]);
        assert forall|k: int| 0 <= k < steps.len() && v <= #[trigger] steps[k] implies offered_step(
            v,
            steps,
        ) <= steps[k] by {
            if k < steps.len() - 1 {
                assert(steps[k] < steps[steps.len() - 1]);
            }
        }
    }
}

/// Every format of a report counts, wherever it stands in the list: one with a picture
/// and a known height has the step for its smallest dimension offered.
pub proof fn law_every_picture_counts(
    q: Qualities,
    info: JsonTree,
    items: Seq<JsonTree>,
    i: int,
    v: u64,
)
    requires
        offers(q, info),
        info.field("formats"@) == Some(JsonTree::List(items)),
        0 <= i < items.len(),
        items[i].field("vcodec"@) != Some(JsonTree::Text("none"@)),
        is_smallest(v, items[i]),
    ensures
        exists|n: u64| #[trigger]
            q.video@.contains(n) && is_step_for(
                n,
                v,
                seq![144u64, 240, 360, 480, 720, 1080, 1440, 2160, 4320],
            ),
{
    lemma_steps_ascend();
    lemma_video_steps();
    assert(report_formats(info)[i] == items[i]);
    assert(format_resolution(items[i]) == Some(v));
    law_resolution_covered(q, info, i, v);
    lemma_offered_step(v, VIDEO_STEPS@);
    assert(q.video@.contains(offered_step(v, VIDEO_STEPS@)));
}

/// Every format of a report counts, wherever it stands in the list: one with sound and
/// a known bitrate has the step for that bitrate, rounded up, offered.
pub proof fn law_every_sound_counts(
    q: Qualities,
    info: JsonTree,
    items: Seq<JsonTree>,
    i: int,
    rate: JsonNumber,
    bits: u64,
)
    requires
        offers(q, info),
        info.field("formats"@) == Some(JsonTree::List(items)),
        0 <= i < items.len(),
        items[i].field("acodec"@) != Some(JsonTree::Text("none"@)),
        items[i].field("abr"@) == Some(JsonTree::Number(rate)),
        rate.double == Some(bits),
    ensures
        exists|n: u64| #[trigger]
            q.audio@.contains(n) && is_step_for(
                n,
                rounded_up(bits) as u64,
                seq![128u64, 192, 320],
            ),
{
    let v = rounded_up(bits) as u64;
    lemma_steps_ascend();
    lemma_video_steps();
    assert(report_formats(info)[i] == items[i]);
    assert(format_bitrate(items[i]) == Some(v));
    law_bitrate_covered(q, info, i, v);
    lemma_offered_step(v, AUDIO_STEPS@);
    assert(q.audio@.contains(offered_step(v, AUDIO_STEPS@)));
}

/// Nothing else is offered: an offered resolution is the step for the smallest
/// dimension of a format with a picture, and an offered bitrate the step for that of
/// a format with sound.
pub proof fn law_nothing_else_offered(q: Qualities, info: JsonTree, items: Seq<JsonTree>, n: u64)
    requires
        offers(q, info),
        info.field("formats"@) == Some(JsonTree::List(items)),
    ensures
        q.video@.contains(n) ==> exists|i: int, v: u64|
            0 <= i < items.len() && (#[trigger] items[i]).field("vcodec"@) != Some(
                JsonTree::Text("none"@),
            ) && #[trigger] is_smallest(v, items[i]) && is_step_for(
                n,
                v,
                seq![144u64, 240, 360, 480, 720, 1080, 1440, 2160, 4320],
            ),
        q.audio@.contains(n) ==> exists|i: int|
            0 <= i < items.len() && (#[trigger] items[i]).field("acodec"@) != Some(
                JsonTree::Text("none"@),
            ) && (items[i].field("abr"@) matches Some(JsonTree::Number(rate)) && (
            rate.double matches Some(bits) && is_step_for(
                n,
                rounded_up(bits) as u64,
                seq![128u64, 192, 320],
            ))),
{
    lemma_steps_ascend();
    lemma_video_steps();
    assert(report_formats(info) == items);
    if q.video@.contains(n) {
        law_offered_resolution_exists(q, info, n);
        let (i, v) = choose|i: int, v: u64|
            0 <= i < report_formats(info).len() && format_resolution(
                #[trigger] report_formats(info)[i],
            ) == Some(v) && #[trigger] offered_step(v, VIDEO_STEPS@) == n && (v <= n || v > 4320);
        lemma_offered_step(v, VIDEO_STEPS@);
        assert(is_smallest(v, items[i]));
    }
    if q.audio@.contains(n) {
        law_offered_bitrate_exists(q, info, n);
        let (i, v) = choose|i: int, v: u64|
            0 <= i < report_formats(info).len() && format_bitrate(
                #[trigger] report_formats(info)[i],
            ) == Some(v) && #[trigger] offered_step(v, AUDIO_STEPS@) == n && (v <= n || v > 320);
        lemma_offered_step(v, AUDIO_STEPS@);
        assert(items[i].field("abr"@) matches Some(JsonTree::Number(_)));
    }
}

/// The qualities are listed from the lowest to the highest, each once, and a report
/// without a list of formats offers none.
pub proof fn law_listed_upwards(q: Qualities, info: JsonTree, i: int, j: int)
    requires
        offers(q, info),
    ensures
        0 <= i < j < q.video@.len() ==> q.video@[i] < q.video@[j],
        0 <= i < j < q.audio@.len() ==> q.audio@[i] < q.audio@[j],
        !(info.field("formats"@) matches Some(JsonTree::List(_))) ==> q.video@.len() == 0
            && q.audio@.len() == 0,
{
    if !(info.field("formats"@) matches Some(JsonTree::List(_))) {
        assert(report_formats(info).len() == 0);
        if q.video@.len() > 0 {
            assert(q.video@.contains(q.video@[0]));
        }
        if q.audio@.len() > 0 {
            assert(q.audio@.contains(q.audio@[0]));
        }
    }
}

/// The name of a file is that of the first requested download, whatever else the
/// report says.
pub proof fn law_filename_of_download(
    info: JsonTree,
    items: Seq<JsonTree>,
    name: Seq<char>,
)
    requires
        info.field("requested_downloads"@) == Some(JsonTree::List(items)),
        items.len() > 0,
        items[0].field("filename"@) == Some(JsonTree::Text(name)),
    ensures
        report_filename(info) == name,
{
}

/// A download without a name is called `unknown_title` with the extension that it
/// gives, or else with `bin`, whatever else the report says.
pub proof fn law_filename_of_unnamed(info: JsonTree, items: Seq<JsonTree>, ext: Seq<char>)
    requires
        info.field("requested_downloads"@) == Some(JsonTree::List(items)),
        items.len() > 0,
        items[0] is Object,
        !(items[0].field("filename"@) matches Some(JsonTree::Text(_))),
    ensures
        items[0].field("ext"@) == Some(JsonTree::Text(ext)) ==> report_filename(info)
            == "unknown_title."@ + ext,
        !(items[0].field("ext"@) matches Some(JsonTree::Text(_))) ==> report_filename(info)
            == "unknown_title."@ + "bin"@,
{
}

/// Where no download was requested, the extension is that of the report.
pub proof fn law_filename_without_download(info: JsonTree, ext: Seq<char>)
    requires
        info.field("requested_downloads"@) matches Some(JsonTree::List(items)) ==> items.len() == 0
            || !(items[0] is Object),
    ensures
        info.field("ext"@) == Some(JsonTree::Text(ext)) ==> report_filename(info)
            == "unknown_title."@ + ext,
        !(info.field("ext"@) matches Some(JsonTree::Text(_))) ==> report_filename(info)
            == "unknown_title."@ + "bin"@,
{
}

/// The title of a media is that of its report, or else `Media`.
pub proof fn law_title(info: JsonTree, title: Seq<char>)
    ensures
        info.field("title"@) == Some(JsonTree::Text(title)) ==> report_title(info) == title,
        !(info.field("title"@) matches Some(JsonTree::Text(_))) ==> report_title(info) == "Media"@,
{
}

/// A sort expression names each requested quality with its number.
pub proof fn law_sort_names_numbers(n: u64, m: u64)
    ensures
        sort_expression(Some(n), None) == "res:"@ + decimal(n as nat),
        sort_expression(None, Some(m)) == "abr:"@ + decimal(m as nat),
        sort_expression(Some(n), Some(m)) == sort_expression(Some(n), None) + ","@
            + sort_expression(None, Some(m)),
{
    assert(sort_expression(Some(n), Some(m)) =~= sort_expression(Some(n), None) + ","@
        + sort_expression(None, Some(m)));
}

/// A command line is made of the leading arguments, the fixed flags, and the sort
/// expression where there is one.
pub proof fn law_command_line(lead: Seq<Seq<char>>, sort: Seq<char>)
    ensures
        command_line(lead, None) == lead + seq![
            "--abort-on-error"@,
            "--no-playlist"@,
            "--retries"@,
            "5"@,
            "--downloader-args"@,
            "ffmpeg:-preset ultrafast -c copy"@,
            "--no-embed-thumbnail"@,
            "--no-embed-metadata"@,
            "-f"@,
            "b/bv*+ba"@,
        ],
        command_line(lead, Some(sort)) == command_line(lead, None) + seq!["-S"@, sort],
{
}

/// A report is an object, and a request keeps its sort expression.
pub proof fn law_report_is_an_object(document: JsonTree, request: Ytdlp)
    ensures
        is_report(document) <==> document is Object,
        request.sort_text() == match request.sort {
            Some(s) => Some(s@),
            None => None,
        },
{
}

} // verus!
