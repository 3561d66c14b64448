use rsdlp::admin::admin_login;
use rsdlp::admin::admin_logout;
use rsdlp::admin::after_disconnect;
use rsdlp::admin::after_password;
use rsdlp::admin::after_prune;
use rsdlp::admin::after_session;
use rsdlp::admin::after_settings;
use rsdlp::admin::after_start;
use rsdlp::admin::after_stop;
use rsdlp::admin::session_tokens;
use rsdlp::admin::AdminAuth;
use rsdlp::admin::ChangePasswordReq;
use rsdlp::admin::Reply;
use rsdlp::admin::ReplyBody;
use rsdlp::admin::TgConfigReq;
use rsdlp::admin::TgConfigResp;
use rsdlp::db::create_session;
use rsdlp::telegram::TelegramConfig;

fn failure(status: u16, message: &str) -> Reply {
    Reply { status, body: ReplyBody::Error { message: message.to_string() }, cookie: None }
}

fn success(cookie: Option<&str>) -> Reply {
    Reply { status: 200, body: ReplyBody::Success, cookie: cookie.map(String::from) }
}

#[test]
fn sessions_in_headers() {
    assert_eq!(session_tokens("rsdlp_session=abc"), vec!["abc"]);
    assert_eq!(session_tokens("a=b; rsdlp_session=abc ;rsdlp_session=d"), vec!["abc", "d"]);
    assert_eq!(session_tokens("rsdlp_session="), vec![""]);
    assert_eq!(session_tokens("xrsdlp_session=a; RSDLP_SESSION=b"), Vec::<String>::new());
    assert_eq!(session_tokens("rsdlp_session=a=b"), vec!["a=b"]);
    assert_eq!(session_tokens(""), Vec::<String>::new());
    assert_eq!(session_tokens(";;"), Vec::<String>::new());
}

#[test]
fn the_session_of_a_login_is_read_back() {
    let token = create_session(1700000000, 5, 99);
    let cookie = after_session(Ok(token.clone())).cookie.expect("a cookie");
    let named = cookie.split(';').next().unwrap();
    assert_eq!(session_tokens(&format!("theme=dark; {named}; x=y")), vec![token]);
}

#[test]
fn who_may_pass() {
    assert_eq!(AdminAuth::from_lookups(&vec![false, true]), Ok(AdminAuth));
    assert_eq!(AdminAuth::from_lookups(&vec![false]), Err(failure(401, "Unauthorized")));
    assert_eq!(AdminAuth::from_lookups(&vec![]), Err(failure(401, "Unauthorized")));
}

#[test]
fn logging_in_and_out() {
    assert_eq!(admin_login(Ok(true)), None);
    assert_eq!(admin_login(Ok(false)), Some(failure(401, "Invalid admin password")));
    assert_eq!(admin_login(Err("x".to_string())), Some(failure(401, "Invalid admin password")));
    assert_eq!(
        after_session(Ok("abc".to_string())),
        success(Some("rsdlp_session=abc; HttpOnly; Path=/; SameSite=Lax; Max-Age=2592000"))
    );
    assert_eq!(after_session(Err("disk".to_string())), failure(500, "disk"));
    assert_eq!(admin_logout(), success(Some("rsdlp_session=; HttpOnly; Path=/; Max-Age=0")));
}

#[test]
fn changing_the_password() {
    let request = |new: &str| ChangePasswordReq {
        old_password: "admin".to_string(),
        new_password: new.to_string(),
    };
    assert_eq!(request("x").refusal(true), None);
    assert_eq!(request("x").refusal(false), Some(failure(400, "Incorrect current password")));
    assert_eq!(request(" ").refusal(false), Some(failure(400, "Incorrect current password")));
    assert_eq!(request(" \t").refusal(true), Some(failure(400, "New password cannot be empty")));
    assert_eq!(after_password(Ok(())), success(None));
    assert_eq!(after_password(Err("e".to_string())), failure(500, "e"));
}

#[test]
fn setting_the_credentials() {
    let request = |api_id: i32, api_hash: &str, bot_token: &str| TgConfigReq {
        api_id,
        api_hash: api_hash.to_string(),
        bot_token: bot_token.to_string(),
    };
    let refusal = failure(400, "API ID, API Hash, and Bot Token are required");
    assert_eq!(request(0, "h", "t").to_settings().err(), Some(refusal.clone()));
    assert_eq!(request(-1, "h", "t").to_settings().err(), Some(refusal.clone()));
    assert_eq!(request(1, " ", "t").to_settings().err(), Some(refusal.clone()));
    assert_eq!(request(1, "h", "").to_settings().err(), Some(refusal));
    let settings: Vec<(String, String)> = request(12345, "h", " t ")
        .to_settings()
        .ok()
        .expect("settings")
        .into_iter()
        .map(|s| (s.key, s.value))
        .collect();
    assert_eq!(
        settings,
        vec![
            ("tg_api_id".to_string(), "12345".to_string()),
            ("tg_api_hash".to_string(), "h".to_string()),
            ("tg_bot_token".to_string(), " t ".to_string()),
        ]
    );
    assert_eq!(after_settings(Ok(())), success(None));
    assert_eq!(after_settings(Err("e".to_string())), failure(500, "e"));
}

#[test]
fn other_requests() {
    assert_eq!(after_start(Ok(())), success(None));
    assert_eq!(after_start(Err("e".to_string())), failure(400, "e"));
    assert_eq!(after_stop(), success(None));
    assert_eq!(after_disconnect(Ok(())), success(None));
    assert_eq!(after_disconnect(Err("e".to_string())), failure(500, "e"));
    assert_eq!(
        after_prune(3),
        Reply { status: 200, body: ReplyBody::Pruned { count: 3 }, cookie: None }
    );
}

#[test]
fn showing_the_credentials() {
    let config = TelegramConfig {
        api_id: 7,
        api_hash: "h".to_string(),
        bot_token: "t".to_string(),
        session_file: "s".to_string(),
    };
    let shown = TgConfigResp::of(Some(&config));
    assert_eq!(shown.api_id, Some(7));
    assert_eq!(shown.api_hash.as_deref(), Some("h"));
    assert_eq!(shown.bot_token.as_deref(), Some("t"));
    let shown = TgConfigResp::of(None);
    assert_eq!(shown.api_id, None);
    assert_eq!(shown.api_hash, None);
    assert_eq!(shown.bot_token, None);
}
