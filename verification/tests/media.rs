use grammers_client::grammers_tl_types::enums;
use grammers_client::grammers_tl_types::types;
use grammers_client::types::media::Uploaded;
use rsdlp::json::parse_json;
use rsdlp::json::Json;
use rsdlp::telegram::build_media_message;
use rsdlp::telegram::cancel_markup;
use rsdlp::telegram::media::after_faststart;
use rsdlp::telegram::media::duration_texts;
use rsdlp::telegram::media::faststart_args;
use rsdlp::telegram::media::needs_faststart;
use rsdlp::telegram::media::probe_args;
use rsdlp::telegram::media::read_probe_output;
use rsdlp::telegram::media::FaststartStep;
use rsdlp::telegram::messages::can_be_carried;
use rsdlp::telegram::messages::keyboard_message;
use rsdlp::telegram::messages::media_attribute;
use rsdlp::telegram::messages::progress_message;
use rsdlp::telegram::messages::text_message;
use rsdlp::telegram::messages::MediaAttribute;
use rsdlp::telegram::probe_media;
use rsdlp::telegram::MediaMetadata;

fn readings(probe: &Json) -> Vec<Option<u64>> {
    duration_texts(probe)
        .iter()
        .map(|text| text.parse::<f64>().ok().map(f64::to_bits))
        .collect()
}

fn probed(text: &str, extension: &str) -> MediaMetadata {
    let probe = parse_json(text.as_bytes()).unwrap();
    probe_media(Some(&probe), &readings(&probe), None, None, None, extension)
}

#[test]
fn test_probe_media_fallback() {
    let video_info = parse_json(
        br#"{"duration": 120.5, "width": 1920, "height": 1080,
             "title": "Sample Video", "uploader": "Test Channel"}"#,
    )
    .unwrap();
    let meta = probe_media(None, &vec![], Some(&video_info), Some(1080), None, "mp4");
    assert!(meta.is_video);
    assert!(!meta.is_audio);
    assert_eq!(meta.duration_secs, 120);
    assert_eq!(meta.width, 1920);
    assert_eq!(meta.height, 1080);
    assert_eq!(meta.mime_type, "video/mp4");
    assert_eq!(meta.title.as_deref(), Some("Sample Video"));
    assert_eq!(meta.artist.as_deref(), Some("Test Channel"));

    let audio_info = parse_json(
        br#"{"duration": 45.0, "vcodec": "none", "title": "Sample Song",
             "artist": "Sample Artist"}"#,
    )
    .unwrap();
    let audio_meta = probe_media(None, &vec![], Some(&audio_info), None, Some(128), "mp3");
    assert!(!audio_meta.is_video);
    assert!(audio_meta.is_audio);
    assert_eq!(audio_meta.duration_secs, 45);
    assert_eq!(audio_meta.mime_type, "audio/mpeg");
    assert_eq!(audio_meta.title.as_deref(), Some("Sample Song"));
    assert_eq!(audio_meta.artist.as_deref(), Some("Sample Artist"));
}

#[test]
fn a_probed_video() {
    let meta = probed(
        r#"{"streams": [
                {"codec_type": "audio", "width": 7},
                {"codec_type": "video", "width": 0, "height": 360, "duration": "x"},
                {"codec_type": "video", "width": 640, "height": 720, "duration": "0.9"},
                {"codec_type": "video", "width": 1280, "duration": "61.9"}],
            "format": {"duration": "99", "tags": {"title": "T", "artist": "A"}}}"#,
        "MP4",
    );
    assert_eq!(
        meta,
        MediaMetadata {
            is_video: true,
            is_audio: false,
            duration_secs: 61,
            width: 640,
            height: 360,
            mime_type: "video/mp4".to_string(),
            title: Some("T".to_string()),
            artist: Some("A".to_string()),
        }
    );
}

#[test]
fn a_probed_song() {
    let meta = probed(
        r#"{"streams": [{"codec_type": "audio", "duration": "5"}],
            "format": {"duration": "180.02", "tags": {"title": 7}}}"#,
        "opus",
    );
    assert!(!meta.is_video);
    assert!(meta.is_audio);
    assert_eq!(meta.duration_secs, 180);
    assert_eq!(meta.mime_type, "audio/ogg");
    assert_eq!(meta.title, None);
    assert_eq!(meta.artist, None);
}

#[test]
fn durations_count_in_order() {
    let probe = parse_json(
        br#"{"streams": [{"codec_type": "video", "duration": "1"},
                         {"codec_type": "audio", "duration": "2"},
                         {"codec_type": "video", "duration": 3},
                         {"codec_type": "video", "duration": "4"}],
             "format": {"duration": "5"}}"#,
    )
    .unwrap();
    assert_eq!(duration_texts(&probe), vec!["1", "4", "5"]);
    assert_eq!(duration_texts(&Json::Null), Vec::<String>::new());
}

#[test]
fn odd_numbers_in_probes() {
    let huge = probed(
        r#"{"streams": [{"codec_type": "video", "width": 4294967297, "height": -1,
                         "duration": "1e30"}]}"#,
        "mkv",
    );
    assert_eq!(huge.width, 1);
    assert_eq!(huge.height, -1);
    assert_eq!(huge.duration_secs, u64::MAX);
    assert_eq!(huge.mime_type, "video/x-matroska");
    let negative = probed(r#"{"streams": [{"codec_type": "video", "duration": "-3"}]}"#, "mp4");
    assert_eq!(negative.duration_secs, 0);
}

#[test]
fn types_of_probed_files() {
    let video = r#"{"streams": [{"codec_type": "video"}]}"#;
    let audio = r#"{"streams": [{"codec_type": "audio"}]}"#;
    let other = r#"{"streams": [{"codec_type": "subtitle"}]}"#;
    let table = [
        ("m4v", "video/mp4", "video/mp4", "video/mp4"),
        ("webm", "video/webm", "audio/webm", "audio/webm"),
        ("mp3", "audio/mpeg", "audio/mpeg", "audio/mpeg"),
        ("m4a", "audio/mp4", "audio/mp4", "audio/mp4"),
        ("aac", "audio/mp4", "audio/mp4", "audio/mp4"),
        ("ogg", "audio/ogg", "audio/ogg", "audio/ogg"),
        ("flac", "audio/flac", "audio/flac", "audio/flac"),
        ("", "video/mp4", "audio/mp4", "application/octet-stream"),
        ("xyz", "video/mp4", "audio/mp4", "application/octet-stream"),
    ];
    for (extension, v, a, o) in table {
        assert_eq!(probed(video, extension).mime_type, v);
        assert_eq!(probed(audio, extension).mime_type, a);
        assert_eq!(probed(other, extension).mime_type, o);
    }
}

#[test]
fn types_of_files_that_were_not_probed() {
    let table = [
        ("mp3", "audio/mpeg", "audio/mpeg"),
        ("M4A", "audio/mp4", "audio/mp4"),
        ("aac", "audio/mp4", "audio/mp4"),
        ("webm", "video/webm", "audio/webm"),
        ("flac", "video/mp4", "audio/mp4"),
    ];
    for (extension, v, a) in table {
        assert_eq!(probe_media(None, &vec![], None, None, None, extension).mime_type, v);
        assert_eq!(probe_media(None, &vec![], None, None, Some(1), extension).mime_type, a);
        assert!(probe_media(None, &vec![], None, Some(1), Some(1), extension).is_video);
    }
}

#[test]
fn an_artist_that_is_no_text_hides_the_uploader() {
    let info = parse_json(br#"{"artist": 7, "uploader": "U", "vcodec": "none"}"#).unwrap();
    let meta = probe_media(None, &vec![], Some(&info), Some(720), None, "mp4");
    assert_eq!(meta.artist, None);
    assert!(meta.is_audio);
    assert_eq!(meta.duration_secs, 0);
}

#[test]
fn outputs_of_the_probe() {
    assert!(read_probe_output(true, b"{}").is_some());
    assert!(read_probe_output(true, b"{").is_none());
    assert!(read_probe_output(false, b"{}").is_none());
    assert_eq!(
        probe_args("a b.mp4"),
        vec!["-v", "quiet", "-print_format", "json", "-show_format", "-show_streams", "a b.mp4"]
    );
}

#[test]
fn files_with_an_index() {
    assert!(needs_faststart("mp4"));
    assert!(needs_faststart("M4V"));
    assert!(needs_faststart("mov"));
    assert!(!needs_faststart("mkv"));
    assert!(!needs_faststart(""));
    assert_eq!(
        faststart_args("in", "out"),
        vec!["-y", "-i", "in", "-c", "copy", "-movflags", "+faststart", "out"]
    );
    assert_eq!(after_faststart(Some(true), true), FaststartStep::Replace);
    assert_eq!(after_faststart(Some(true), false), FaststartStep::Discard);
    assert_eq!(after_faststart(Some(false), true), FaststartStep::Discard);
    assert_eq!(after_faststart(None, true), FaststartStep::Leave);
}

fn metadata(is_video: bool, is_audio: bool, duration_secs: u64) -> MediaMetadata {
    MediaMetadata {
        is_video,
        is_audio,
        duration_secs,
        width: 640,
        height: 360,
        mime_type: "video/mp4".to_string(),
        title: Some("T".to_string()),
        artist: None,
    }
}

#[test]
fn how_files_are_played() {
    match media_attribute(&metadata(true, false, 9)) {
        Some(MediaAttribute::Video {
            round_message,
            supports_streaming,
            duration_secs,
            width,
            height,
        }) => {
            assert!(!round_message);
            assert!(supports_streaming);
            assert_eq!((duration_secs, width, height), (9, 640, 360));
        }
        _ => panic!("expected a video"),
    }
    match media_attribute(&metadata(false, true, 9)) {
        Some(MediaAttribute::Audio { duration_secs, title, performer }) => {
            assert_eq!(duration_secs, 9);
            assert_eq!(title.as_deref(), Some("T"));
            assert_eq!(performer, None);
        }
        _ => panic!("expected a song"),
    }
    assert!(media_attribute(&metadata(false, false, 9)).is_none());
}

#[test]
fn messages_that_carry_files() {
    let uploaded = Uploaded {
        raw: enums::InputFile::File(types::InputFile {
            id: 1,
            parts: 1,
            name: "a.mp4".to_string(),
            md5_checksum: String::new(),
        }),
    };
    for meta in [metadata(true, false, 1 << 40), metadata(false, true, 9), metadata(false, false, 9)] {
        assert!(can_be_carried(&meta));
        let _message = build_media_message(uploaded.clone(), "caption".to_string(), &meta);
    }
    assert!(can_be_carried(&metadata(false, true, i32::MAX as u64)));
    assert!(!can_be_carried(&metadata(false, true, i32::MAX as u64 + 1)));
}

#[test]
fn messages_without_files() {
    let _text = text_message("hello".to_string());
    let _menu = keyboard_message("choose".to_string(), &cancel_markup());
    let _progress = progress_message("working".to_string());
}
