use std::path::PathBuf;

use rsdlp::admin::TgConfigReq;
use rsdlp::telegram::config::prefixed_key;
use rsdlp::telegram::config::EnvSetting;
use rsdlp::telegram::config::StoredSettings;
use rsdlp::telegram::config::TelegramEnv;
use rsdlp::telegram::BotInfo;
use rsdlp::telegram::TelegramConfig;
use rsdlp::telegram::TelegramManager;

fn unset() -> EnvSetting {
    EnvSetting { prefixed: None, bare: None }
}

fn prefixed(value: &str) -> EnvSetting {
    EnvSetting { prefixed: Some(value.to_string()), bare: None }
}

fn bare(value: &str) -> EnvSetting {
    EnvSetting { prefixed: None, bare: Some(value.to_string()) }
}

fn empty() -> TelegramEnv {
    TelegramEnv {
        api_id: unset(),
        api_hash: unset(),
        bot_token: unset(),
        session_file: unset(),
    }
}

fn full() -> TelegramEnv {
    TelegramEnv {
        api_id: prefixed("12345"),
        api_hash: prefixed("abcdef"),
        bot_token: prefixed("123:ABC"),
        session_file: unset(),
    }
}

fn nothing() -> StoredSettings {
    StoredSettings { api_id: None, api_hash: None, bot_token: None }
}

fn stored(api_id: &str, api_hash: &str, bot_token: &str) -> StoredSettings {
    StoredSettings {
        api_id: Some(api_id.to_string()),
        api_hash: Some(api_hash.to_string()),
        bot_token: Some(bot_token.to_string()),
    }
}

fn manager() -> TelegramManager<u8> {
    TelegramManager::new("bot.session".to_string(), PathBuf::from("staging"))
}

#[test]
fn test_config_from_env() {
    assert_eq!(prefixed_key("TG_API_ID"), "RSDLP_TG_API_ID");
    assert_eq!(prefixed_key("TG_API_HASH"), "RSDLP_TG_API_HASH");
    assert_eq!(prefixed_key("TG_BOT_TOKEN"), "RSDLP_TG_BOT_TOKEN");
    assert!(TelegramConfig::from_env(&empty()).is_none());

    let config = TelegramConfig::from_env(&full()).expect("config should parse");
    assert_eq!(config.api_id, 12345);
    assert_eq!(config.api_hash, "abcdef");
    assert_eq!(config.bot_token, "123:ABC");
}

#[test]
fn the_environment_in_detail() {
    let config = TelegramConfig::from_env(&full()).unwrap();
    assert_eq!(config.session_file, "rsdlp.session");

    let mut env = full();
    env.session_file = bare("other.session");
    env.bot_token = bare("  9:X \n");
    let config = TelegramConfig::from_env(&env).unwrap();
    assert_eq!(config.session_file, "other.session");
    assert_eq!(config.bot_token, "9:X");

    let mut env = full();
    env.api_id = EnvSetting { prefixed: Some("x".to_string()), bare: Some("7".to_string()) };
    assert!(TelegramConfig::from_env(&env).is_none());
    env.api_id = EnvSetting { prefixed: Some("-8".to_string()), bare: Some("7".to_string()) };
    assert_eq!(TelegramConfig::from_env(&env).unwrap().api_id, -8);
    env.api_id = prefixed(" 8");
    assert!(TelegramConfig::from_env(&env).is_none());

    let mut env = full();
    env.bot_token = prefixed(" ");
    assert!(TelegramConfig::from_env(&env).is_none());
    let mut env = full();
    env.api_hash = unset();
    assert!(TelegramConfig::from_env(&env).is_none());
}

#[test]
fn the_store_wins_over_the_environment() {
    let m = manager();
    let config = m.get_config(&stored("7", "hash", " 1:A "), &full()).unwrap();
    assert_eq!(config.api_id, 7);
    assert_eq!(config.api_hash, "hash");
    assert_eq!(config.bot_token, " 1:A ");
    assert_eq!(config.session_file, "bot.session");

    let config = m.get_config(&nothing(), &full()).unwrap();
    assert_eq!(config.api_id, 12345);
    assert_eq!(config.bot_token, "123:ABC");

    let config = m.get_config(&stored("seven", "hash", "1:A"), &full()).unwrap();
    assert_eq!(config.api_id, 12345);

    assert!(m.get_config(&stored("7", "hash", "  "), &full()).is_none());
    assert!(m.get_config(&nothing(), &empty()).is_none());
    assert!(m.get_config(&stored("x", "hash", "1:A"), &empty()).is_none());
    let mut partial = stored("7", "hash", "1:A");
    partial.api_hash = None;
    assert!(m.get_config(&partial, &empty()).is_none());
}

#[test]
fn stored_credentials_are_read_back() {
    let request = TgConfigReq {
        api_id: 2147483647,
        api_hash: "h".to_string(),
        bot_token: "1:A".to_string(),
    };
    let settings = request.to_settings().ok().expect("settings");
    let stored = stored(&settings[0].value, &settings[1].value, &settings[2].value);
    let config = manager().get_config(&stored, &full()).expect("a configuration");
    assert_eq!(config.api_id, 2147483647);
    assert_eq!(config.api_hash, "h");
    assert_eq!(config.bot_token, "1:A");
}

#[test]
fn how_the_bot_stands() {
    let mut m = manager();
    let status = m.get_status(None);
    assert!(!status.configured && !status.running);
    assert_eq!(status.session_file, "bot.session");
    assert_eq!(status.api_id, None);

    let config = TelegramConfig::from_env(&full()).unwrap();
    let status = m.get_status(Some(&config));
    assert!(status.configured && !status.running);
    assert_eq!(status.api_id, Some(12345));

    m.bot_running(BotInfo {
        bot_username: Some("u".to_string()),
        bot_name: None,
        api_id: 9,
    });
    let status = m.get_status(None);
    assert!(status.configured && status.running);
    assert_eq!(status.bot_username.as_deref(), Some("u"));
    assert_eq!(status.bot_name, None);
    assert_eq!(status.api_id, Some(9));

    m.bot_ended();
    assert!(!m.get_status(None).running);
}

#[test]
fn starting_and_stopping() {
    let info = BotInfo { bot_username: None, bot_name: None, api_id: 9 };
    let mut m = manager();
    let missing = m.start_bot(None).err().expect("no credentials");
    assert_eq!(missing.message(), "Telegram bot token, api_id, or api_hash missing");
    assert!(m.stop_bot().is_none());

    let start = m.start_bot(TelegramConfig::from_env(&full())).ok().expect("credentials");
    assert_eq!(start.config.api_id, 12345);
    assert_eq!(start.abort, None);
    m.bot_started(1);
    m.bot_running(info.clone());

    let start = m.start_bot(TelegramConfig::from_env(&full())).ok().expect("credentials");
    assert_eq!(start.abort, Some(1));
    assert!(!m.get_status(None).running);
    m.bot_started(2);
    m.bot_running(info.clone());

    assert!(m.start_bot(None).is_err());
    assert!(m.get_status(None).running);
    assert_eq!(m.stop_bot(), Some(2));
    assert!(!m.get_status(None).running);

    m.bot_started(3);
    let steps = m.disconnect();
    assert_eq!(steps.abort, Some(3));
    assert_eq!(steps.session_file, "bot.session");
    assert_eq!(steps.setting, "tg_bot_token");

    assert!(m.init_from_db(None).is_none());
    assert!(m.init_from_db(TelegramConfig::from_env(&full())).is_some());
}
