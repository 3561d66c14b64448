use std::collections::BTreeSet;

use rsdlp::json::parse_json;
use rsdlp::ytdlp::build_sort;
use rsdlp::ytdlp::extract_filename;
use rsdlp::ytdlp::extract_qualities;
use rsdlp::ytdlp::extract_title;
use rsdlp::ytdlp::group_signal_target;
use rsdlp::ytdlp::snap;
use rsdlp::ytdlp::InfoError;
use rsdlp::ytdlp::Qualities;
use rsdlp::ytdlp::Ytdlp;
use rsdlp::ytdlp::AUDIO_STEPS;
use rsdlp::ytdlp::VIDEO_STEPS;

fn qualities(text: &str) -> Qualities {
    extract_qualities(&parse_json(text.as_bytes()).unwrap())
}

#[test]
fn test_build_sort() {
    assert_eq!(build_sort(Some(720), None), "res:720");
    assert_eq!(build_sort(None, Some(192)), "abr:192");
    assert_eq!(build_sort(Some(1080), Some(320)), "res:1080,abr:320");
    assert_eq!(build_sort(None, None), "");
}

#[test]
fn test_extract_filename() {
    let info = parse_json(
        br#"{"requested_downloads": [{"filename": "sample_video.mp4", "ext": "mp4"}]}"#,
    )
    .unwrap();
    assert_eq!(extract_filename(&info), "sample_video.mp4");

    let fallback_info = parse_json(br#"{"requested_downloads": [{"ext": "mkv"}]}"#).unwrap();
    assert_eq!(extract_filename(&fallback_info), "unknown_title.mkv");
}

#[test]
fn test_extract_title() {
    let info = parse_json(br#"{"title": "My Test Video"}"#).unwrap();
    assert_eq!(extract_title(&info), "My Test Video");
    let empty = parse_json(b"{}").unwrap();
    assert_eq!(extract_title(&empty), "Media");
}

#[test]
fn names_without_a_title() {
    let name = |text: &str| extract_filename(&parse_json(text.as_bytes()).unwrap());
    assert_eq!(name("{}"), "unknown_title.bin");
    assert_eq!(name(r#"{"ext": "mkv"}"#), "unknown_title.mkv");
    assert_eq!(name(r#"{"requested_downloads": [], "ext": "mp4"}"#), "unknown_title.mp4");
    assert_eq!(name(r#"{"requested_downloads": [7], "ext": "mp4"}"#), "unknown_title.mp4");
    assert_eq!(name(r#"{"requested_downloads": [{"ext": "webm"}], "ext": "mp4"}"#), "unknown_title.webm");
    assert_eq!(name(r#"{"requested_downloads": [{"filename": 1}], "ext": "mp4"}"#), "unknown_title.bin");
    assert_eq!(name("[1]"), "unknown_title.bin");
}

#[test]
fn values_round_up_onto_steps() {
    let values: BTreeSet<u64> = [1, 100, 144, 145, 719, 720, 5000].into_iter().collect();
    assert_eq!(snap(&values, &VIDEO_STEPS), vec![144, 240, 720, 5000]);
    let values: BTreeSet<u64> = [49, 128, 129, 321].into_iter().collect();
    assert_eq!(snap(&values, &AUDIO_STEPS), vec![128, 192, 321]);
    assert_eq!(snap(&BTreeSet::new(), &AUDIO_STEPS), Vec::<u64>::new());
    let values: BTreeSet<u64> = [7, 3].into_iter().collect();
    assert_eq!(snap(&values, &[]), vec![3, 7]);
}

#[test]
fn qualities_of_a_report() {
    let q = qualities(
        r#"{"formats": [
            {"vcodec": "avc1", "acodec": "none", "width": 1920, "height": 1080, "abr": 500},
            {"vcodec": "avc1", "acodec": "mp4a", "width": 360, "height": 640, "abr": 68.646},
            {"vcodec": "none", "acodec": "mp4a", "height": 100, "abr": 128.0000001},
            {"height": 4321},
            {"vcodec": "vp9", "width": 100},
            {"abr": "160"},
            {"acodec": "opus", "abr": 500.5}]}"#,
    );
    assert_eq!(q.video, vec![360, 1080, 4320]);
    assert_eq!(q.audio, vec![128, 192, 320]);
}

#[test]
fn only_standard_steps_are_offered() {
    let q = qualities(r#"{"formats": [{"height": 4321, "abr": 321}]}"#);
    assert_eq!(q.video, vec![4320]);
    assert_eq!(q.audio, vec![320]);
    let q = qualities(
        r#"{"formats": [{"height": 18446744073709551615, "abr": 1e300},
                        {"height": 4320, "abr": 320}, {"height": 1, "abr": 0}]}"#,
    );
    assert_eq!(q.video, vec![144, 4320]);
    assert_eq!(q.audio, vec![128, 320]);
}

#[test]
fn different_requests_sort_differently() {
    let requests = [(None, None), (Some(1), None), (None, Some(1)), (Some(1), Some(1)),
        (Some(11), None), (Some(1), Some(11)), (Some(11), Some(1))];
    for (i, a) in requests.iter().enumerate() {
        for (j, b) in requests.iter().enumerate() {
            assert_eq!(build_sort(a.0, a.1) == build_sort(b.0, b.1), i == j);
        }
    }
}

#[test]
fn reports_without_formats() {
    assert!(qualities("{}").video.is_empty());
    assert!(qualities(r#"{"formats": {"height": 7}}"#).video.is_empty());
    assert!(qualities(r#"{"formats": [null, 3, "x", []]}"#).audio.is_empty());
    let zero = qualities(r#"{"formats": [{"abr": -3.5}, {"height": 7.5}, {"height": -7}]}"#);
    assert_eq!(zero.audio, vec![128]);
    assert!(zero.video.is_empty());
}

#[test]
fn command_lines() {
    let request = Ytdlp::new("https://a.b", Some("res:720".to_string()));
    let flags = [
        "--abort-on-error",
        "--no-playlist",
        "--retries",
        "5",
        "--downloader-args",
        "ffmpeg:-preset ultrafast -c copy",
        "--no-embed-thumbnail",
        "--no-embed-metadata",
        "-f",
        "b/bv*+ba",
    ];
    let mut expected = vec!["-J", "https://a.b"];
    expected.extend(flags);
    expected.extend(["-S", "res:720"]);
    assert_eq!(request.info_args(), expected);
    let mut expected = vec!["-o", "-", "https://a.b"];
    expected.extend(flags);
    assert_eq!(Ytdlp::new("https://a.b", None).download_args(), expected);
}

#[test]
fn outputs_of_the_report() {
    assert!(matches!(Ytdlp::get_info(b"{\"title\": 1}"), Ok(Some(_))));
    assert!(matches!(Ytdlp::get_info(b"null"), Ok(None)));
    assert!(matches!(Ytdlp::get_info(b"[{}]"), Ok(None)));
    assert_eq!(Ytdlp::get_info(b"").err(), Some(InfoError));
    assert_eq!(Ytdlp::get_info(b"{} x").err(), Some(InfoError));
}

#[test]
fn targets_of_the_signal() {
    assert_eq!(group_signal_target(1234), Some(-1234));
    assert_eq!(group_signal_target(-1), None);
    assert_eq!(group_signal_target(0), None);
    assert_eq!(group_signal_target(1), None);
}
