use rsdlp::json::parse_json;
use rsdlp::startup::bind_address;
use rsdlp::startup::log_level;
use rsdlp::web::content_disposition;
use rsdlp::web::download_headers;
use rsdlp::web::download_request;
use rsdlp::web::parse_quality;
use rsdlp::web::qualities_answer;
use rsdlp::web::qualities_request;
use rsdlp::web::require_info;
use rsdlp::web::DownloadForm;
use rsdlp::web::QualitiesForm;
use rsdlp::ytdlp::InfoError;

fn form(res: Option<&str>, abr: Option<&str>) -> DownloadForm {
    DownloadForm {
        url: "https://a.b".to_string(),
        res: res.map(String::from),
        abr: abr.map(String::from),
    }
}

#[test]
fn fields_of_the_form() {
    assert_eq!(parse_quality(&None), Ok(None));
    assert_eq!(parse_quality(&Some(String::new())), Ok(None));
    assert_eq!(parse_quality(&Some(" \t".to_string())), Ok(None));
    assert_eq!(parse_quality(&Some(" 720 ".to_string())), Ok(Some(720)));
    assert_eq!(parse_quality(&Some("+5".to_string())), Ok(Some(5)));
    assert_eq!(parse_quality(&Some("720p".to_string())), Err(400));
    assert_eq!(parse_quality(&Some("-1".to_string())), Err(400));
    assert_eq!(parse_quality(&Some("7 2".to_string())), Err(400));
}

#[test]
fn downloads_need_a_quality() {
    let request = download_request(&form(Some("720"), Some(""))).ok().expect("a request");
    assert_eq!(request.url, "https://a.b");
    assert_eq!(request.sort.as_deref(), Some("res:720"));
    let request = download_request(&form(Some("720"), Some("128"))).ok().expect("a request");
    assert_eq!(request.sort.as_deref(), Some("res:720,abr:128"));
    assert_eq!(download_request(&form(None, None)).err(), Some(400));
    assert_eq!(download_request(&form(Some(""), Some(" "))).err(), Some(400));
    assert_eq!(download_request(&form(Some("x"), Some("128"))).err(), Some(400));
    assert_eq!(download_request(&form(Some("720"), Some("x"))).err(), Some(400));
}

#[test]
fn reports_are_needed() {
    let report = parse_json(br#"{"formats": [{"height": 100}]}"#).unwrap();
    assert!(require_info(Ok(Some(report))).is_ok());
    assert_eq!(require_info(Ok(None)).err(), Some(400));
    assert_eq!(require_info(Err(InfoError)).err(), Some(500));
    let report = parse_json(br#"{"formats": [{"height": 100}]}"#).unwrap();
    let qualities = qualities_answer(Ok(Some(report))).ok().expect("qualities");
    assert_eq!(qualities.video, vec![144]);
    assert_eq!(qualities_answer(Ok(None)).err(), Some(400));
    assert_eq!(qualities_answer(Err(InfoError)).err(), Some(500));
    let request = qualities_request(&QualitiesForm { url: "u".to_string() });
    assert_eq!(request.url, "u");
    assert_eq!(request.sort, None);
}

#[test]
fn names_of_downloads() {
    let info = parse_json(br#"{"requested_downloads": [{"filename": "a b.mp4"}]}"#).unwrap();
    assert_eq!(content_disposition(&info), "attachment; filename=\"a b.mp4\"");
    let headers: Vec<(String, String)> =
        download_headers(&info).into_iter().map(|h| (h.name, h.value)).collect();
    assert_eq!(
        headers,
        vec![
            ("Content-Type".to_string(), "application/octet-stream".to_string()),
            ("Content-Disposition".to_string(), "attachment; filename=\"a b.mp4\"".to_string()),
        ]
    );
}

#[test]
fn log_levels() {
    let args = |list: &[&str]| list.iter().map(|s| s.to_string()).collect::<Vec<String>>();
    let own = Some("trace".to_string());
    let common = Some("warn".to_string());
    let flag = args(&["--log-level", "debug"]);
    assert_eq!(log_level(own.clone(), common.clone(), &flag), "trace");
    assert_eq!(log_level(None, common, &flag), "warn");
    assert_eq!(log_level(None, None, &flag), "debug");
    assert_eq!(log_level(None, None, &args(&["x", "--log", "error"])), "error");
    assert_eq!(log_level(None, None, &args(&["-l", "a", "--log", "b"])), "a");
    assert_eq!(log_level(None, None, &args(&["-l"])), "info");
    assert_eq!(log_level(None, None, &args(&[])), "info");
}

#[test]
fn bind_addresses() {
    assert_eq!(bind_address(None), "0.0.0.0:3000");
    assert_eq!(bind_address(Some("127.0.0.1:80".to_string())), "127.0.0.1:80");
}
