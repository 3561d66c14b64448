//! A download on its way to the user: the request, the staged file, and what the
//! status message says at each stage.

use std::path::PathBuf;

use vstd::prelude::*;

use crate::json::Json;
use crate::numeral::all_digits;
use crate::numeral::decimal;
use crate::numeral::decimal_text;
use crate::numeral::is_digit;
use crate::numeral::law_u64_round_trip;
use crate::numeral::lemma_decimal_digits;
use crate::telegram::dialogue::DownloadJob;
use crate::text::chars_of;
use crate::text::has_prefix;
use crate::text::law_prefix;
use crate::text::starts_with;
use crate::ytdlp::Ytdlp;
use crate::ytdlp::build_sort;
use crate::ytdlp::extract_filename;
use crate::ytdlp::report_filename;
use crate::ytdlp::sort_expression;

verus! {

// ---------------------------------------------------------------------------
// The staged file
// ---------------------------------------------------------------------------

/// The character that stands for `c` in a file name.
pub open spec fn safe_char(c: char) -> char {
    if c == '/' || c == '\\' || c == '\0' {
        '_'
    } else {
        c
    }
}

/// `name` with an underscore in place of each separator and null character.
pub open spec fn safe_name(name: Seq<char>) -> Seq<char> {
    name.map_values(|c: char| safe_char(c))
}

/// Replaces the characters of `name` that cannot stand in a file name.
pub fn safe_filename(name: &str) -> (r: String)
    ensures
        r@ == safe_name(name@),
{
    let chars = chars_of(name);
    let mut out = String::new();
    let mut i: usize = 0;
    while i < chars.len()
        invariant
            i <= chars@.len(),
            chars@ == name@,
            out@ == safe_name(name@.take(i as int)),
        decreases chars@.len() - i,
    {
        let c = chars[i];
        if c == '/' || c == '\\' || c == '\0' {
            out.push('_');
        } else {
            out.push(c);
        }
        i += 1;
        assert(out@ =~= safe_name(name@.take(i as int)));
    }
    assert(name@.take(i as int) =~= name@);
    out
}

/// The name under which a download is staged, for its report where there is one.
pub fn staged_filename(info: Option<&Json>) -> (r: String)
    ensures
        r@ == safe_name(
            match info {
                Some(report) => report_filename(report.tree()),
                None => "video.mp4"@,
            },
        ),
{
    match info {
        Some(report) => safe_filename(extract_filename(report).as_str()),
        None => safe_filename("video.mp4"),
    }
}

/// The name of the directory in which a download is staged.
pub open spec fn job_dir(pid: u32, id: u64) -> Seq<char> {
    "rsdlp_job_"@ + decimal(pid as nat) + "_"@ + decimal(id as nat)
}

/// Names the directory in which the `id`-th download of process `pid` is staged.
pub fn job_dir_name(pid: u32, id: u64) -> (r: String)
    ensures
        r@ == job_dir(pid, id),
{
    let mut out = String::from_str("rsdlp_job_");
    out.append(decimal_text(pid as u64).as_str());
    out.append("_");
    out.append(decimal_text(id).as_str());
    out
}

/// A directory that goes with the file that was staged in it.
pub open spec fn is_job_dir(name: Seq<char>) -> bool {
    has_prefix(name, "rsdlp_job_"@)
}

/// A staged file that is to be deleted when its download is over.
pub struct TempFileGuard {
    pub path: PathBuf,
}

impl TempFileGuard {
    /// Takes charge of the file at `path`.
    pub fn new(path: PathBuf) -> (r: Self)
        ensures
            r.path == path,
    {
        TempFileGuard { path }
    }

    /// The path of the file.
    pub fn path(&self) -> (r: &PathBuf)
        ensures
            *r == self.path,
    {
        &self.path
    }

    /// Tells whether a directory of this name is deleted with the file in it.
    pub fn removes_parent(parent_name: Option<&str>) -> (r: bool)
        ensures
            r == match parent_name {
                Some(name) => is_job_dir(name@),
                None => false,
            },
    {
        match parent_name {
            Some(name) => starts_with(name, "rsdlp_job_"),
            None => false,
        }
    }
}

// ---------------------------------------------------------------------------
// The stages
// ---------------------------------------------------------------------------

/// Why a download failed.
pub enum DownloadError {
    /// There was no space left to stage the file.
    StorageFull,
    /// Anything else, in words.
    Other { message: String },
}

/// What to do after a stage of a download.
pub enum JobStep {
    /// Put `text` in place of the status message, and stop.
    Stop { text: String },
    /// Put `text` in place of the status message, and upload the file.
    Upload { text: String },
    /// Send the file with `caption`, and delete the status message.
    Send { caption: String },
}

/// The sort expression of a request for the given quality.
pub open spec fn job_sort(res: Option<u64>, abr: Option<u64>) -> Option<Seq<char>> {
    if res is None && abr is None {
        None
    } else {
        Some(sort_expression(res, abr))
    }
}

impl DownloadJob {
    /// The request to `yt-dlp`.
    pub fn request(&self) -> (r: Ytdlp)
        ensures
            r.url@ == self.pending.url@,
            r.sort_text() == job_sort(self.res, self.abr),
    {
        let sort = if self.res.is_none() && self.abr.is_none() {
            None
        } else {
            Some(build_sort(self.res, self.abr))
        };
        Ytdlp::new(self.pending.url.as_str(), sort)
    }

    /// The status message while the file is downloaded.
    pub fn downloading_text(&self) -> (r: String)
        ensures
            r@ == "⏳ [1/2] Downloading "@ + self.pending.title@ + " ("@ + self.desc@
                + ") to server disk..."@,
    {
        let mut out = String::from_str("⏳ [1/2] Downloading ");
        out.append(self.pending.title.as_str());
        out.append(" (");
        out.append(self.desc.as_str());
        out.append(") to server disk...");
        out
    }

    /// Goes on when the download has ended.
    pub fn after_download(&self, outcome: Result<(), DownloadError>) -> (r: JobStep)
        ensures
            match outcome {
                Ok(()) => r matches JobStep::Upload { text } && text@ == "📤 [2/2] Uploading "@
                    + self.pending.title@ + " to Telegram..."@,
                Err(DownloadError::StorageFull) => r matches JobStep::Stop { text } && text@
                    == "Download failed: Server storage full. Contact administrator."@,
                Err(DownloadError::Other { message }) => r matches JobStep::Stop { text } && text@
                    == "Download failed: "@ + message@,
            },
    {
        match outcome {
            Ok(()) => {
                let mut text = String::from_str("📤 [2/2] Uploading ");
                text.append(self.pending.title.as_str());
                text.append(" to Telegram...");
                JobStep::Upload { text }
            },
            Err(DownloadError::StorageFull) => JobStep::Stop {
                text: String::from_str(
                    "Download failed: Server storage full. Contact administrator.",
                ),
            },
            Err(DownloadError::Other { message }) => {
                let mut text = String::from_str("Download failed: ");
                text.append(message.as_str());
                JobStep::Stop { text }
            },
        }
    }

    /// Goes on when the upload has ended.
    pub fn after_upload(&self, outcome: Result<(), String>) -> (r: JobStep)
        ensures
            match outcome {
                Ok(()) => r matches JobStep::Send { caption } && caption@ == "🎬 "@
                    + self.pending.title@ + "\nQuality: "@ + self.desc@,
                Err(message) => r matches JobStep::Stop { text } && text@ == "Upload failed: "@
                    + message@,
            },
    {
        match outcome {
            Ok(()) => {
                let mut caption = String::from_str("🎬 ");
                caption.append(self.pending.title.as_str());
                caption.append("\nQuality: ");
                caption.append(self.desc.as_str());
                JobStep::Send { caption }
            },
            Err(message) => {
                let mut text = String::from_str("Upload failed: ");
                text.append(message.as_str());
                JobStep::Stop { text }
            },
        }
    }
}

// ---------------------------------------------------------------------------
// Laws
// ---------------------------------------------------------------------------

/// A staged file stays within its directory: its name holds no separator and no null
/// character, and each of its other characters is as it was.
pub proof fn law_safe_name(name: Seq<char>, i: int)
    requires
        0 <= i < name.len(),
    ensures
        safe_name(name).len() == name.len(),
        safe_name(name)[i] != '/',
        safe_name(name)[i] != '\\',
        safe_name(name)[i] != '\0',
        safe_name(name)[i] == name[i] || safe_name(name)[i] == '_',
{
}

/// The directory of a download is recognised as one, and so goes with its file.
pub proof fn law_job_dir_recognised(pid: u32, id: u64)
    ensures
        is_job_dir(job_dir(pid, id)),
{
    let p = "rsdlp_job_"@;
    assert(job_dir(pid, id).take(p.len() as int) =~= p);
}

proof fn lemma_split_digits(a: Seq<char>, b: Seq<char>, c: Seq<char>)
    requires
        all_digits(a),
        all_digits(b),
        has_prefix(a + seq!['_'] + c, b + seq!['_']),
    ensures
        a == b,
{
    let whole = a + seq!['_'] + c;
    let part = b + seq!['_'];
    assert(whole.take(part.len() as int) == part);
    assert forall|i: int| 0 <= i < part.len() implies whole[i] == part[i] by {
        assert(whole.take(part.len() as int)[i] == part[i]);
    }
    if b.len() < a.len() {
        assert(whole[b.len() as int] == a[b.len() as int]);
        assert(part[b.len() as int] == '_');
        assert(is_digit(a[b.len() as int]));
    } else if b.len() > a.len() {
        assert(whole[a.len() as int] == '_');
        assert(part[a.len() as int] == b[a.len() as int]);
        assert(is_digit(b[a.len() as int]));
    } else {
        assert(a =~= b) by {
            assert forall|i: int| 0 <= i < a.len() implies a[i] == b[i] by {
                assert(whole[i] == a[i] && part[i] == b[i]);
            }
        }
    }
}

/// The directories of process `pid` are told apart from those of another process by
/// the beginnings of their names.
pub proof fn law_job_dir_owner(pid: u32, id: u64, other: u32)
    ensures
        has_prefix(
            job_dir(pid, id),
            "rsdlp_job_"@ + decimal(other as nat) + "_"@,
        ) <==> pid == other,
{
    reveal_strlit("_");
    let p = "rsdlp_job_"@;
    let a = decimal(pid as nat);
    let b = decimal(other as nat);
    let c = decimal(id as nat);
    assert("_"@ =~= seq!['_']);
    let whole = job_dir(pid, id);
    let part = p + b + "_"@;
    lemma_decimal_digits(pid as nat);
    lemma_decimal_digits(other as nat);
    if has_prefix(whole, part) {
        let x = a + seq!['_'] + c;
        let y = b + seq!['_'];
        assert(x =~= whole.skip(p.len() as int));
        assert(y =~= part.skip(p.len() as int));
        assert(x.take(y.len() as int) =~= whole.take(part.len() as int).skip(p.len() as int));
        lemma_split_digits(a, b, c);
        law_u64_round_trip(pid as u64);
        law_u64_round_trip(other as u64);
    }
    if pid == other {
        assert(whole.take(part.len() as int) =~= part);
    }
}

/// No two downloads are staged in the same directory.
pub proof fn law_job_dirs_distinct(pid: u32, id: u64, other_pid: u32, other_id: u64)
    requires
        job_dir(pid, id) == job_dir(other_pid, other_id),
    ensures
        pid == other_pid,
        id == other_id,
{
    let p = "rsdlp_job_"@;
    let front = p + decimal(other_pid as nat) + "_"@;
    assert(job_dir(other_pid, other_id).take(front.len() as int) =~= front);
    law_job_dir_owner(pid, id, other_pid);
    assert(job_dir(pid, id).skip(front.len() as int) =~= decimal(id as nat));
    assert(job_dir(other_pid, other_id).skip(front.len() as int) =~= decimal(other_id as nat));
    law_u64_round_trip(id);
    law_u64_round_trip(other_id);
}

/// Only separators and null characters are replaced in the name of a staged file.
pub proof fn law_name_is_kept(name: Seq<char>, i: int)
    requires
        0 <= i < name.len(),
    ensures
        name[i] != '/' && name[i] != '\\' && name[i] != '\0' ==> safe_name(name)[i] == name[i],
        name[i] == '/' || name[i] == '\\' || name[i] == '\0' ==> safe_name(name)[i] == '_',
{
}

/// A directory of a download is called by its process and its number.
pub proof fn law_job_dir_name(pid: u32, id: u64, rest: Seq<char>)
    ensures
        job_dir(pid, id) == "rsdlp_job_"@ + decimal(pid as nat) + "_"@ + decimal(id as nat),
        is_job_dir("rsdlp_job_"@ + rest),
        is_job_dir(rest) ==> rest == "rsdlp_job_"@ + rest.skip("rsdlp_job_"@.len() as int),
{
    law_prefix("rsdlp_job_"@ + rest, "rsdlp_job_"@, rest);
    law_prefix(rest, "rsdlp_job_"@, rest);
}

/// A download asks for the chosen quality, and for the best one without a sort
/// expression.
pub proof fn law_job_asks_for(n: u64, m: u64)
    ensures
        job_sort(None, None) is None,
        job_sort(Some(n), None) == Some("res:"@ + decimal(n as nat)),
        job_sort(None, Some(m)) == Some("abr:"@ + decimal(m as nat)),
        job_sort(Some(n), Some(m)) == Some(
            "res:"@ + decimal(n as nat) + ","@ + "abr:"@ + decimal(m as nat),
        ),
{
}

} // verus!
