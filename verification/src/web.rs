//! The public endpoints: which qualities a media offers, and its download.

use vstd::prelude::*;

use crate::admin::BAD_REQUEST;
use crate::admin::INTERNAL_SERVER_ERROR;
use crate::json::Json;
use crate::json::JsonTree;
use crate::numeral::decimal;
use crate::numeral::is_digit;
use crate::numeral::law_u64_round_trip;
use crate::numeral::lemma_decimal_digits;
use crate::numeral::parse_u64;
use crate::numeral::u64_text;
use crate::text::all_space;
use crate::text::is_blank;
use crate::text::law_padding_is_trimmed;
use crate::text::trim;
use crate::text::trimmed;
use crate::ytdlp::InfoError;
use crate::ytdlp::Qualities;
use crate::ytdlp::Ytdlp;
use crate::ytdlp::build_sort;
use crate::ytdlp::extract_filename;
use crate::ytdlp::extract_qualities;
use crate::ytdlp::law_sort_empty;
use crate::ytdlp::offers;
use crate::ytdlp::report_filename;
use crate::ytdlp::sort_expression;

verus! {

/// The form of a download. An omitted quality may also arrive as an empty text.
pub struct DownloadForm {
    pub url: String,
    pub res: Option<String>,
    pub abr: Option<String>,
}

/// The form of a request for the qualities.
pub struct QualitiesForm {
    pub url: String,
}

/// The quality that a field of the form holds: none where it is absent or blank, and
/// an error where it is no plain number.
pub open spec fn quality_field(raw: Option<String>) -> Result<Option<u64>, u16> {
    match raw {
        None => Ok(None),
        Some(text) => if trimmed(text@).len() == 0 {
            Ok(None)
        } else {
            match u64_text(trimmed(text@)) {
                Some(n) => Ok(Some(n)),
                None => Err(BAD_REQUEST),
            }
        },
    }
}

/// Reads the quality that a field of the form holds.
pub fn parse_quality(raw: &Option<String>) -> (r: Result<Option<u64>, u16>)
    ensures
        r == quality_field(*raw),
{
    match raw {
        None => Ok(None),
        Some(text) => if is_blank(text.as_str()) {
            Ok(None)
        } else {
            match parse_u64(trim(text.as_str())) {
                Some(n) => Ok(Some(n)),
                None => Err(BAD_REQUEST),
            }
        },
    }
}

/// The form names a quality, and nothing in it is malformed.
pub open spec fn is_download(form: DownloadForm, res: Option<u64>, abr: Option<u64>) -> bool {
    &&& quality_field(form.res) == Ok::<Option<u64>, u16>(res)
    &&& quality_field(form.abr) == Ok::<Option<u64>, u16>(abr)
    &&& (res is Some || abr is Some)
}

/// Makes the request to `yt-dlp` that a form asks for. A form with a malformed
/// quality, or without any, is refused.
pub fn download_request(form: &DownloadForm) -> (r: Result<Ytdlp, u16>)
    ensures
        match r {
            Ok(request) => exists|res: Option<u64>, abr: Option<u64>| #[trigger]
                is_download(*form, res, abr) && request.url@ == form.url@ && request.sort_text()
                    == Some(sort_expression(res, abr)),
            Err(status) => status == BAD_REQUEST && forall|res: Option<u64>, abr: Option<u64>|
                !#[trigger] is_download(*form, res, abr),
        },
{
    let res = match parse_quality(&form.res) {
        Ok(res) => res,
        Err(status) => return Err(status),
    };
    let abr = match parse_quality(&form.abr) {
        Ok(abr) => abr,
        Err(status) => return Err(status),
    };
    if res.is_none() && abr.is_none() {
        return Err(BAD_REQUEST);
    }
    assert(is_download(*form, res, abr));
    Ok(Ytdlp::new(form.url.as_str(), Some(build_sort(res, abr))))
}

/// Makes the request to `yt-dlp` for the report on a media.
pub fn qualities_request(form: &QualitiesForm) -> (r: Ytdlp)
    ensures
        r.url@ == form.url@,
        r.sort_text() is None,
{
    Ytdlp::new(form.url.as_str(), None)
}

/// Goes on with the report on a media: a failure to fetch it is one of the server,
/// and one that is no report is one of the request.
pub fn require_info(info: Result<Option<Json>, InfoError>) -> (r: Result<Json, u16>)
    ensures
        match info {
            Ok(Some(report)) => r == Ok::<Json, u16>(report),
            Ok(None) => r == Err::<Json, u16>(BAD_REQUEST),
            Err(_) => r == Err::<Json, u16>(INTERNAL_SERVER_ERROR),
        },
{
    match info {
        Ok(Some(report)) => Ok(report),
        Ok(None) => Err(BAD_REQUEST),
        Err(_) => Err(INTERNAL_SERVER_ERROR),
    }
}

/// Answers a request for the qualities.
pub fn qualities_answer(info: Result<Option<Json>, InfoError>) -> (r: Result<Qualities, u16>)
    ensures
        match info {
            Ok(Some(report)) => r matches Ok(q) && offers(q, report.tree()),
            Ok(None) => r == Err::<Qualities, u16>(BAD_REQUEST),
            Err(_) => r == Err::<Qualities, u16>(INTERNAL_SERVER_ERROR),
        },
{
    match require_info(info) {
        Ok(report) => Ok(extract_qualities(&report)),
        Err(status) => Err(status),
    }
}

/// Names the file that a download is saved as.
pub fn content_disposition(info: &Json) -> (r: String)
    ensures
        r@ == "attachment; filename=\""@ + report_filename(info.tree()) + "\""@,
{
    let mut out = String::from_str("attachment; filename=\"");
    out.append(extract_filename(info).as_str());
    out.append("\"");
    out
}

/// A header of a response.
#[derive(Debug, Clone, PartialEq)]
pub struct Header {
    pub name: String,
    pub value: String,
}

/// The contents of some headers.
pub open spec fn header_texts(list: Seq<Header>) -> Seq<(Seq<char>, Seq<char>)> {
    list.map_values(|h: Header| (h.name@, h.value@))
}

/// The headers of a download with the given report: it is a stream of bytes that is
/// saved as a file.
pub open spec fn download_header_texts(info: JsonTree) -> Seq<(Seq<char>, Seq<char>)> {
    seq![
        ("Content-Type"@, "application/octet-stream"@),
        ("Content-Disposition"@, "attachment; filename=\""@ + report_filename(info) + "\""@),
    ]
}

/// Lists the headers of a download.
pub fn download_headers(info: &Json) -> (r: Vec<Header>)
    ensures
        header_texts(r@) == download_header_texts(info.tree()),
{
    let mut list: Vec<Header> = Vec::new();
    list.push(
        Header {
            name: String::from_str("Content-Type"),
            value: String::from_str("application/octet-stream"),
        },
    );
    list.push(
        Header {
            name: String::from_str("Content-Disposition"),
            value: content_disposition(info),
        },
    );
    assert(header_texts(list@) =~= download_header_texts(info.tree()));
    list
}

// ---------------------------------------------------------------------------
// Laws
// ---------------------------------------------------------------------------

/// An absent quality and a blank one are treated alike.
pub proof fn law_absent_or_blank(raw: String)
    requires
        trimmed(raw@).len() == 0,
    ensures
        quality_field(Some(raw)) == quality_field(None),
{
}

/// The sort expression of a download is never empty.
pub proof fn law_download_names_quality(form: DownloadForm, res: Option<u64>, abr: Option<u64>)
    requires
        is_download(form, res, abr),
    ensures
        sort_expression(res, abr).len() > 0,
{
    law_sort_empty(res, abr);
}

/// A field that holds the numeral of a number, with white space around it or not, is
/// read as that number.
pub proof fn law_field_holds_number(raw: String, before: Seq<char>, n: u64, after: Seq<char>)
    requires
        raw@ == before + decimal(n as nat) + after,
        all_space(before),
        all_space(after),
    ensures
        quality_field(Some(raw)) == Ok::<Option<u64>, u16>(Some(n)),
{
    let d = decimal(n as nat);
    law_padding_is_trimmed(before, d, after);
    law_u64_round_trip(n);
    lemma_decimal_digits(n as nat);
    assert(is_digit(d[0]) && is_digit(d.last()));
    assert(trimmed(d) == d);
}

/// A field that is blank, or absent, names no quality; one that holds anything but a
/// number is a bad request.
pub proof fn law_other_fields(raw: String)
    ensures
        quality_field(None) == Ok::<Option<u64>, u16>(None),
        trimmed(raw@).len() == 0 ==> quality_field(Some(raw)) == Ok::<Option<u64>, u16>(None),
        trimmed(raw@).len() > 0 && u64_text(trimmed(raw@)) is None ==> quality_field(Some(raw))
            == Err::<Option<u64>, u16>(400),
        quality_field(Some(raw)) matches Ok(Some(n)) ==> u64_text(trimmed(raw@)) == Some(n),
{
}

/// The request of a form that names only a resolution has just that number as its
/// sort expression.
pub proof fn law_form_with_resolution(
    form: DownloadForm,
    raw: String,
    before: Seq<char>,
    n: u64,
    after: Seq<char>,
    res: Option<u64>,
    abr: Option<u64>,
)
    requires
        form.res == Some(raw),
        raw@ == before + decimal(n as nat) + after,
        all_space(before),
        all_space(after),
        form.abr is None,
    ensures
        is_download(form, Some(n), None),
        is_download(form, res, abr) ==> sort_expression(res, abr) == "res:"@ + decimal(n as nat),
{
    law_field_holds_number(raw, before, n, after);
}

/// The request of a form that names only a bitrate has just that number as its sort
/// expression.
pub proof fn law_form_with_bitrate(
    form: DownloadForm,
    raw: String,
    before: Seq<char>,
    n: u64,
    after: Seq<char>,
    res: Option<u64>,
    abr: Option<u64>,
)
    requires
        form.abr == Some(raw),
        raw@ == before + decimal(n as nat) + after,
        all_space(before),
        all_space(after),
        form.res is None,
    ensures
        is_download(form, None, Some(n)),
        is_download(form, res, abr) ==> sort_expression(res, abr) == "abr:"@ + decimal(n as nat),
{
    law_field_holds_number(raw, before, n, after);
}

/// The request of a form that names both has both numbers as its sort expression.
pub proof fn law_form_with_both(
    form: DownloadForm,
    raw_res: String,
    n: u64,
    raw_abr: String,
    m: u64,
    res: Option<u64>,
    abr: Option<u64>,
)
    requires
        form.res == Some(raw_res),
        raw_res@ == decimal(n as nat),
        form.abr == Some(raw_abr),
        raw_abr@ == decimal(m as nat),
    ensures
        is_download(form, Some(n), Some(m)),
        is_download(form, res, abr) ==> sort_expression(res, abr) == "res:"@ + decimal(n as nat)
            + ",abr:"@ + decimal(m as nat),
{
    reveal_strlit(",");
    reveal_strlit("abr:");
    reveal_strlit(",abr:");
    let none = Seq::<char>::empty();
    assert(none + raw_res@ + none =~= raw_res@);
    assert(none + raw_abr@ + none =~= raw_abr@);
    law_field_holds_number(raw_res, none, n, none);
    law_field_holds_number(raw_abr, none, m, none);
    assert(","@ + "abr:"@ =~= ",abr:"@);
    assert(sort_expression(Some(n), Some(m)) =~= "res:"@ + decimal(n as nat) + ",abr:"@ + decimal(
        m as nat,
    ));
}

/// A form that names no quality, or a malformed one, is no download.
pub proof fn law_form_without_quality(form: DownloadForm, res: Option<u64>, abr: Option<u64>)
    requires
        quality_field(form.res) is Err || quality_field(form.abr) is Err || (quality_field(form.res)
            == Ok::<Option<u64>, u16>(None) && quality_field(form.abr) == Ok::<Option<u64>, u16>(
            None,
        )),
    ensures
        !is_download(form, res, abr),
{
}

/// A download is a stream of bytes, saved under the name that its report gives.
pub proof fn law_download_headers(
    info: JsonTree,
    items: Seq<JsonTree>,
    name: Seq<char>,
    list: Seq<Header>,
)
    requires
        header_texts(list) == download_header_texts(info),
        info.field("requested_downloads"@) == Some(JsonTree::List(items)),
        items.len() > 0,
        items[0].field("filename"@) == Some(JsonTree::Text(name)),
    ensures
        list.len() == 2,
        list[0].name@ == "Content-Type"@,
        list[0].value@ == "application/octet-stream"@,
        list[1].name@ == "Content-Disposition"@,
        list[1].value@ == "attachment; filename=\""@ + name + "\""@,
{
    let t = header_texts(list);
    assert(t.len() == list.len());
    assert(t[0] == (list[0].name@, list[0].value@));
    assert(t[1] == (list[1].name@, list[1].value@));
}

/// The statuses of refused requests.
pub proof fn law_statuses()
    ensures
        BAD_REQUEST == 400,
        INTERNAL_SERVER_ERROR == 500,
{
}

} // verus!
