use bcrypt::BcryptError;
use rsdlp::db::add_blacklist;
use rsdlp::db::check_url_blacklisted;
use rsdlp::db::create_session;
use rsdlp::db::extract_domain;
use rsdlp::db::hash_to_store;
use rsdlp::db::is_accepted;
use rsdlp::db::remove_blacklist;
use rsdlp::db::seed_default_password;
use rsdlp::db::set_admin_password;
use rsdlp::db::verify_admin_password;
use rsdlp::db::HashError;

#[test]
fn test_extract_domain() {
    assert_eq!(
        extract_domain("https://www.youtube.com/watch?v=123"),
        Some("www.youtube.com".to_string())
    );
    assert_eq!(extract_domain("http://youtu.be/abc?t=10"), Some("youtu.be".to_string()));
    assert_eq!(
        extract_domain("https://example.com:8080/path"),
        Some("example.com".to_string())
    );
    assert_eq!(extract_domain("invalid-url"), Some("invalid-url".to_string()));
}

#[test]
fn domains_in_odd_addresses() {
    assert_eq!(extract_domain("  https://WWW.Example.COM#x "), Some("www.example.com".to_string()));
    assert_eq!(extract_domain("https://ÄÖ.de/"), Some("äö.de".to_string()));
    assert_eq!(extract_domain("https:// a.b /c"), Some("a.b".to_string()));
    assert_eq!(extract_domain("ftp://a.b"), Some("ftp".to_string()));
    assert_eq!(extract_domain("HTTPS://a.b"), Some("https".to_string()));
    assert_eq!(extract_domain("https://http://a.b"), Some("http".to_string()));
    assert_eq!(extract_domain("https:///path"), None);
    assert_eq!(extract_domain("?q"), None);
    assert_eq!(extract_domain(" "), None);
}

#[test]
fn schemes_are_alike() {
    for rest in ["", "  ", "/path", "Example.COM?x=/y", " a.b ", "ÄÖ.de:80", "a b/c", "http://x"] {
        let secure = extract_domain(&format!("https://{rest}"));
        assert_eq!(secure, extract_domain(&format!("http://{rest}")));
        if !rest.starts_with("http://") {
            assert_eq!(secure, extract_domain(rest));
        }
        if let Some(domain) = secure {
            assert_eq!(extract_domain(&domain), Some(domain.clone()));
        }
    }
    assert_eq!(extract_domain("https:///path"), None);
    assert_eq!(extract_domain("https://Example.COM?x=/y"), Some("example.com".to_string()));
}

fn list_domain(list: &mut Vec<String>, domain: &str) {
    let entry = add_blacklist(domain).ok().expect("an entry");
    if !list.contains(&entry) {
        list.push(entry);
    }
    list.sort();
}

#[test]
fn test_blacklist_crud_and_check() {
    let mut list: Vec<String> = Vec::new();
    assert_eq!(check_url_blacklisted("https://www.youtube.com/watch?v=123", &list), None);

    list_domain(&mut list, "youtube.com");
    list_domain(&mut list, "youtu.be");

    assert_eq!(
        check_url_blacklisted("https://www.youtube.com/watch?v=123", &list),
        Some("youtube.com".to_string())
    );
    assert_eq!(
        check_url_blacklisted("https://m.youtube.com/watch?v=123", &list),
        Some("youtube.com".to_string())
    );
    assert_eq!(
        check_url_blacklisted("https://youtu.be/123", &list),
        Some("youtu.be".to_string())
    );
    assert_eq!(check_url_blacklisted("https://soundcloud.com/track", &list), None);

    let removed = remove_blacklist("youtube.com");
    list.retain(|entry| *entry != removed);
    assert_eq!(check_url_blacklisted("https://www.youtube.com/watch?v=123", &list), None);
    assert_eq!(
        check_url_blacklisted("https://youtu.be/123", &list),
        Some("youtu.be".to_string())
    );
}

#[test]
fn entries_and_covers() {
    assert_eq!(add_blacklist("  Example.COM ").ok(), Some("example.com".to_string()));
    assert_eq!(remove_blacklist("\tEXAMPLE.com"), "example.com");
    let refused = add_blacklist(" \n").err().expect("an empty domain");
    assert_eq!(refused.message(), "Domain cannot be empty");
    assert_eq!(remove_blacklist(" "), "");

    let list = vec!["Example.com".to_string(), "a.example.com".to_string()];
    assert_eq!(
        check_url_blacklisted("http://A.EXAMPLE.com/", &list),
        Some("Example.com".to_string())
    );
    assert_eq!(check_url_blacklisted("http://notexample.com/", &list), None);
    assert_eq!(check_url_blacklisted("http://example.com.evil/", &list), None);
    assert_eq!(check_url_blacklisted("", &list), None);
    let list = vec!["www.youtube.com".to_string(), "youtube.com".to_string()];
    assert_eq!(check_url_blacklisted("https://notyoutube.com/", &list), None);
    assert_eq!(
        check_url_blacklisted("https://youtube.com/", &list),
        Some("youtube.com".to_string())
    );
    assert_eq!(
        check_url_blacklisted("https://www.youtube.com/", &list),
        Some("www.youtube.com".to_string())
    );
    assert_eq!(add_blacklist("\u{3000}ÄÖ.de ").ok(), Some("äö.de".to_string()));
}

#[test]
fn test_db_default_password_and_change() {
    let stored = seed_default_password(None).ok().expect("hash").expect("a new hash");
    assert!(verify_admin_password(Some(&stored), "admin"));
    assert!(!verify_admin_password(Some(&stored), "wrong"));

    let changed = set_admin_password("new_secret_123").ok().expect("hash");
    assert!(!verify_admin_password(Some(&changed), "admin"));
    assert!(verify_admin_password(Some(&changed), "new_secret_123"));
}

#[test]
fn passwords_without_a_hash() {
    assert_eq!(seed_default_password(Some("x")).ok(), Some(None));
    assert!(!verify_admin_password(None, "admin"));
    assert!(!verify_admin_password(Some("not a hash"), "admin"));
    assert!(is_accepted(Some(Ok(true))));
    assert!(!is_accepted(Some(Ok(false))));
    assert!(!is_accepted(Some(Err(HashError { cause: BcryptError::CostNotAllowed(3) }))));
    assert!(!is_accepted(None));
}

#[test]
fn hashes_name_their_work_factor() {
    let hash = set_admin_password("secret").ok().expect("hash");
    assert_eq!(hash.chars().count(), 60);
    assert!(hash.starts_with("$2b$12$"));
}

#[test]
fn hashes_are_stored_as_they_are() {
    assert_eq!(hash_to_store(Ok("h".to_string())).ok(), Some("h".to_string()));
    let refused = hash_to_store(Err(BcryptError::CostNotAllowed(3))).err().expect("an error");
    assert!(matches!(refused.cause, BcryptError::CostNotAllowed(3)));
}

#[test]
fn names_of_sessions() {
    assert_eq!(create_session(0x65f0a1b2, 255, 16), "65f0a1b2ff10");
    assert_eq!(create_session(0, 0, 0), "000");
    assert_eq!(
        create_session(u64::MAX, u32::MAX, u32::MAX),
        format!("{:x}{:x}{:x}", u64::MAX, u32::MAX, u32::MAX)
    );
}
