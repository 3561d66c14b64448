use std::path::PathBuf;

use rsdlp::json::parse_json;
use rsdlp::telegram::dialogue::DownloadJob;
use rsdlp::telegram::jobs::job_dir_name;
use rsdlp::telegram::jobs::safe_filename;
use rsdlp::telegram::jobs::staged_filename;
use rsdlp::telegram::jobs::DownloadError;
use rsdlp::telegram::jobs::JobStep;
use rsdlp::telegram::PendingChoice;
use rsdlp::telegram::TempFileGuard;

fn job(res: Option<u64>, abr: Option<u64>) -> DownloadJob {
    DownloadJob {
        pending: PendingChoice { url: "https://a.b".to_string(), title: "Song".to_string() },
        res,
        abr,
        desc: "720p".to_string(),
    }
}

fn text_of(step: JobStep) -> String {
    match step {
        JobStep::Stop { text } => text,
        JobStep::Upload { text } => text,
        JobStep::Send { caption } => caption,
    }
}

#[test]
fn staged_names() {
    assert_eq!(safe_filename("a/b\\c\0d.mp4"), "a_b_c_d.mp4");
    assert_eq!(safe_filename("../../x"), ".._.._x");
    assert_eq!(safe_filename("ü 🎬.mp4"), "ü 🎬.mp4");
    assert_eq!(staged_filename(None), "video.mp4");
    let info = parse_json(br#"{"requested_downloads": [{"filename": "/tmp/x.mp4"}]}"#).unwrap();
    assert_eq!(staged_filename(Some(&info)), "_tmp_x.mp4");
}

#[test]
fn directories_of_downloads() {
    assert_eq!(job_dir_name(12, 7), "rsdlp_job_12_7");
    assert_ne!(job_dir_name(1, 27), job_dir_name(12, 7));
    assert!(TempFileGuard::removes_parent(Some(&job_dir_name(12, 7))));
    assert!(!TempFileGuard::removes_parent(Some("downloads")));
    assert!(!TempFileGuard::removes_parent(None));
    let guard = TempFileGuard::new(PathBuf::from("a/b"));
    assert_eq!(guard.path(), &PathBuf::from("a/b"));
}

#[test]
fn requests_of_downloads() {
    assert_eq!(job(None, None).request().sort, None);
    assert_eq!(job(Some(720), None).request().sort, Some("res:720".to_string()));
    assert_eq!(job(None, Some(128)).request().sort, Some("abr:128".to_string()));
    assert_eq!(job(None, None).request().url, "https://a.b");
}

#[test]
fn status_messages() {
    let job = job(Some(720), None);
    assert_eq!(job.downloading_text(), "⏳ [1/2] Downloading Song (720p) to server disk...");
    assert!(matches!(job.after_download(Ok(())), JobStep::Upload { .. }));
    assert_eq!(text_of(job.after_download(Ok(()))), "📤 [2/2] Uploading Song to Telegram...");
    assert_eq!(
        text_of(job.after_download(Err(DownloadError::StorageFull))),
        "Download failed: Server storage full. Contact administrator."
    );
    assert_eq!(
        text_of(job.after_download(Err(DownloadError::Other { message: "broken".to_string() }))),
        "Download failed: broken"
    );
    assert_eq!(text_of(job.after_upload(Ok(()))), "🎬 Song\nQuality: 720p");
    assert!(matches!(job.after_upload(Err("x".to_string())), JobStep::Stop { .. }));
    assert_eq!(text_of(job.after_upload(Err("x".to_string()))), "Upload failed: x");
}
