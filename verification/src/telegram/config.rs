//! The credentials of the bot, and where they come from.

use vstd::prelude::*;

use crate::numeral::i32_text;
use crate::numeral::law_i32_round_trip;
use crate::numeral::parse_i32;
use crate::numeral::signed_decimal;
use crate::text::is_blank;
use crate::text::optional_text;
use crate::text::trim;
use crate::text::trimmed;

verus! {

/// What the bot needs in order to sign in.
#[derive(Debug, Clone)]
pub struct TelegramConfig {
    pub api_id: i32,
    pub api_hash: String,
    pub bot_token: String,
    pub session_file: String,
}

/// The content of a configuration.
pub ghost struct Config {
    pub api_id: int,
    pub api_hash: Seq<char>,
    pub bot_token: Seq<char>,
    pub session_file: Seq<char>,
}

impl View for TelegramConfig {
    type V = Config;

    open spec fn view(&self) -> Config {
        Config {
            api_id: self.api_id as int,
            api_hash: self.api_hash@,
            bot_token: self.bot_token@,
            session_file: self.session_file@,
        }
    }
}

/// The content of an optional configuration.
pub open spec fn optional_config(c: Option<TelegramConfig>) -> Option<Config> {
    match c {
        Some(c) => Some(c@),
        None => None,
    }
}

/// A setting of the environment. It is looked for under its name with a prefix, and
/// under its bare name.
pub struct EnvSetting {
    pub prefixed: Option<String>,
    pub bare: Option<String>,
}

/// The name with the prefix under which a setting is looked for first.
pub open spec fn prefixed_name(key: Seq<char>) -> Seq<char> {
    "RSDLP_"@ + key
}

/// Prefixes the name of a setting.
pub fn prefixed_key(key: &str) -> (r: String)
    ensures
        r@ == prefixed_name(key@),
{
    let mut out = String::from_str("RSDLP_");
    out.append(key);
    out
}

impl EnvSetting {
    /// The value of the setting: the prefixed variable wins.
    pub open spec fn setting(&self) -> Option<Seq<char>> {
        match self.prefixed {
            Some(value) => Some(value@),
            None => optional_text(self.bare),
        }
    }

    /// Reads the value of the setting.
    pub fn value(&self) -> (r: Option<&String>)
        ensures
            match r {
                Some(value) => self.setting() == Some(value@),
                None => self.setting() is None,
            },
    {
        match &self.prefixed {
            Some(value) => Some(value),
            None => match &self.bare {
                Some(value) => Some(value),
                None => None,
            },
        }
    }
}

/// The settings of the bot in the environment.
pub struct TelegramEnv {
    pub api_id: EnvSetting,
    pub api_hash: EnvSetting,
    pub bot_token: EnvSetting,
    pub session_file: EnvSetting,
}

/// The settings of the bot in the store.
pub struct StoredSettings {
    pub api_id: Option<String>,
    pub api_hash: Option<String>,
    pub bot_token: Option<String>,
}

/// The session file where none is set.
pub open spec fn default_session_file() -> Seq<char> {
    "rsdlp.session"@
}

/// The number that a setting holds.
pub open spec fn number_setting(s: Option<Seq<char>>) -> Option<i32> {
    match s {
        Some(s) => i32_text(s),
        None => None,
    }
}

/// The first of two optional values.
pub open spec fn first_of<T>(a: Option<T>, b: Option<T>) -> Option<T> {
    match a {
        Some(v) => Some(v),
        None => b,
    }
}

/// A value that is not blank.
pub open spec fn not_blank(s: Option<Seq<char>>) -> Option<Seq<char>> {
    match s {
        Some(s) => if trimmed(s).len() == 0 {
            None
        } else {
            Some(s)
        },
        None => None,
    }
}

/// The configuration that the environment holds: it needs a number, a hash, and a
/// token that is not blank, and the token is trimmed.
pub open spec fn env_config(env: TelegramEnv) -> Option<Config> {
    match (
        number_setting(env.api_id.setting()),
        env.api_hash.setting(),
        not_blank(env.bot_token.setting()),
    ) {
        (Some(api_id), Some(api_hash), Some(token)) => Some(
            Config {
                api_id: api_id as int,
                api_hash,
                bot_token: trimmed(token),
                session_file: match env.session_file.setting() {
                    Some(file) => file,
                    None => default_session_file(),
                },
            },
        ),
        _ => None,
    }
}

/// The configuration that the store and the environment hold together: each setting
/// of the store wins over that of the environment. A number that cannot be read
/// counts as missing; a blank token that is stored does not give way to another.
pub open spec fn stored_config(
    stored: StoredSettings,
    env: TelegramEnv,
    session_file: Seq<char>,
) -> Option<Config> {
    match (
        first_of(
            number_setting(optional_text(stored.api_id)),
            number_setting(env.api_id.setting()),
        ),
        first_of(optional_text(stored.api_hash), env.api_hash.setting()),
        not_blank(first_of(optional_text(stored.bot_token), env.bot_token.setting())),
    ) {
        (Some(api_id), Some(api_hash), Some(bot_token)) => Some(
            Config { api_id: api_id as int, api_hash, bot_token, session_file },
        ),
        _ => None,
    }
}

fn read_number(s: Option<&String>) -> (r: Option<i32>)
    ensures
        r == number_setting(
            match s {
                Some(s) => Some(s@),
                None => None,
            },
        ),
{
    match s {
        Some(s) => parse_i32(s.as_str()),
        None => None,
    }
}

/// The stored value, or else that of the environment.
fn stored_or_env<'a>(stored: &'a Option<String>, env: &'a EnvSetting) -> (r: Option<&'a String>)
    ensures
        match r {
            Some(value) => first_of(optional_text(*stored), env.setting()) == Some(value@),
            None => first_of(optional_text(*stored), env.setting()) is None,
        },
{
    match stored {
        Some(value) => Some(value),
        None => env.value(),
    }
}

impl TelegramConfig {
    /// Reads the configuration that the environment holds.
    pub fn from_env(env: &TelegramEnv) -> (r: Option<TelegramConfig>)
        ensures
            optional_config(r) == env_config(*env),
    {
        let api_id = match read_number(env.api_id.value()) {
            Some(n) => n,
            None => return None,
        };
        let api_hash = match env.api_hash.value() {
            Some(s) => s.clone(),
            None => return None,
        };
        let bot_token = match env.bot_token.value() {
            Some(s) => String::from_str(trim(s.as_str())),
            None => return None,
        };
        if bot_token.as_str().unicode_len() == 0 {
            return None;
        }
        let session_file = match env.session_file.value() {
            Some(s) => s.clone(),
            None => String::from_str("rsdlp.session"),
        };
        Some(TelegramConfig { api_id, api_hash, bot_token, session_file })
    }

    /// Reads the configuration that the store and the environment hold together.
    pub fn from_settings(stored: &StoredSettings, env: &TelegramEnv, session_file: &str) -> (r:
        Option<TelegramConfig>)
        ensures
            optional_config(r) == stored_config(*stored, *env, session_file@),
    {
        let stored_id = match &stored.api_id {
            Some(s) => parse_i32(s.as_str()),
            None => None,
        };
        let api_id = match stored_id {
            Some(n) => n,
            None => match read_number(env.api_id.value()) {
                Some(n) => n,
                None => return None,
            },
        };
        let api_hash = match stored_or_env(&stored.api_hash, &env.api_hash) {
            Some(s) => s.clone(),
            None => return None,
        };
        let bot_token = match stored_or_env(&stored.bot_token, &env.bot_token) {
            Some(s) => s.clone(),
            None => return None,
        };
        if is_blank(bot_token.as_str()) {
            return None;
        }
        Some(
            TelegramConfig {
                api_id,
                api_hash,
                bot_token,
                session_file: String::from_str(session_file),
            },
        )
    }
}

// ---------------------------------------------------------------------------
// Laws
// ---------------------------------------------------------------------------

/// Without a token there is no configuration: not one in the store, and not one in
/// the environment.
pub proof fn law_token_is_needed(
    stored: StoredSettings,
    env: TelegramEnv,
    session_file: Seq<char>,
)
    requires
        stored.bot_token is None,
        env.bot_token.prefixed is None,
        env.bot_token.bare is None,
    ensures
        stored_config(stored, env, session_file) is None,
        env_config(env) is None,
{
}

/// The environment is a fallback: a value of the store is used whatever the
/// environment holds.
pub proof fn law_store_first(
    stored: StoredSettings,
    env: TelegramEnv,
    other: TelegramEnv,
    session_file: Seq<char>,
)
    requires
        number_setting(optional_text(stored.api_id)) is Some,
        stored.api_hash is Some,
        stored.bot_token is Some,
    ensures
        stored_config(stored, env, session_file) == stored_config(stored, other, session_file),
{
}

/// A variable with the prefix wins over the bare one, and either is taken as it is.
pub proof fn law_prefixed_variable_first(setting: EnvSetting, key: Seq<char>)
    ensures
        setting.prefixed matches Some(v) ==> setting.setting() == Some(v@),
        setting.prefixed is None ==> (setting.bare matches Some(v) ==> setting.setting() == Some(v@)),
        setting.prefixed is None && setting.bare is None ==> setting.setting() is None,
        prefixed_name(key) == "RSDLP_"@ + key,
{
}

/// The environment is a configuration where it holds the numeral of a number, a hash,
/// and a token that is not blank: then it is these, with the token trimmed and the
/// session file that is set, or else `rsdlp.session`.
pub proof fn law_environment_read(env: TelegramEnv, n: i32, hash: Seq<char>, token: Seq<char>)
    requires
        env.api_id.setting() == Some(signed_decimal(n as int)),
        env.api_hash.setting() == Some(hash),
        env.bot_token.setting() == Some(token),
        trimmed(token).len() > 0,
    ensures
        env_config(env) matches Some(c) && c.api_id == n && c.api_hash == hash && c.bot_token
            == trimmed(token) && match env.session_file.setting() {
            Some(file) => c.session_file == file,
            None => c.session_file == "rsdlp.session"@,
        },
{
    law_i32_round_trip(n);
}

/// Without a number, a hash or a token that is not blank the environment is no
/// configuration.
pub proof fn law_environment_incomplete(env: TelegramEnv)
    ensures
        env.api_id.setting() is None ==> env_config(env) is None,
        env.api_id.setting() matches Some(s) ==> (i32_text(s) is None ==> env_config(env) is None),
        env.api_hash.setting() is None ==> env_config(env) is None,
        env.bot_token.setting() is None ==> env_config(env) is None,
        env.bot_token.setting() matches Some(t) ==> (trimmed(t).len() == 0 ==> env_config(env)
            is None),
{
}

/// Without anything in the store, its configuration is made of the number, the hash
/// and the token of the environment as they are, with the session file of the server.
pub proof fn law_environment_is_the_fallback(
    stored: StoredSettings,
    env: TelegramEnv,
    session_file: Seq<char>,
    n: i32,
    hash: Seq<char>,
    token: Seq<char>,
)
    requires
        stored.api_id is None,
        stored.api_hash is None,
        stored.bot_token is None,
        env.api_id.setting() == Some(signed_decimal(n as int)),
        env.api_hash.setting() == Some(hash),
        env.bot_token.setting() == Some(token),
        trimmed(token).len() > 0,
    ensures
        stored_config(stored, env, session_file) == Some(
            Config { api_id: n as int, api_hash: hash, bot_token: token, session_file },
        ),
{
    law_i32_round_trip(n);
}

/// A blank token in the store is no configuration, and neither is a number or a hash
/// that is nowhere.
pub proof fn law_store_incomplete(stored: StoredSettings, env: TelegramEnv, session_file: Seq<char>)
    ensures
        stored.bot_token matches Some(t) ==> (trimmed(t@).len() == 0 ==> stored_config(
            stored,
            env,
            session_file,
        ) is None),
        stored.api_hash is None && env.api_hash.setting() is None ==> stored_config(
            stored,
            env,
            session_file,
        ) is None,
        stored.api_id is None && env.api_id.setting() is None ==> stored_config(
            stored,
            env,
            session_file,
        ) is None,
{
}

/// The content of a configuration is what it holds.
pub proof fn law_config_content(c: TelegramConfig)
    ensures
        c@.api_id == c.api_id,
        c@.api_hash == c.api_hash@,
        c@.bot_token == c.bot_token@,
        c@.session_file == c.session_file@,
        optional_config(Some(c)) == Some(c@),
        optional_config(None) is None,
{
}

/// Each part of a configuration comes from the store where it is there, and else from
/// the environment; all three have to be somewhere.
pub proof fn law_config_sources(stored: StoredSettings, env: TelegramEnv, session_file: Seq<char>)
    ensures
        stored_config(stored, env, session_file) matches Some(c) ==> {
            &&& c.session_file == session_file
            &&& match stored.api_hash {
                Some(h) => c.api_hash == h@,
                None => env.api_hash.setting() == Some(c.api_hash),
            }
            &&& match stored.bot_token {
                Some(t) => c.bot_token == t@,
                None => env.bot_token.setting() == Some(c.bot_token),
            }
            &&& trimmed(c.bot_token).len() > 0
            &&& match stored.api_id {
                Some(s) => match i32_text(s@) {
                    Some(n) => c.api_id == n,
                    None => env.api_id.setting() matches Some(e) && i32_text(e) == Some(
                        c.api_id as i32,
                    ),
                },
                None => env.api_id.setting() matches Some(e) && i32_text(e) == Some(c.api_id as i32),
            }
        },
        stored_config(stored, env, session_file) is None ==> {
            ||| stored.api_hash is None && env.api_hash.setting() is None
            ||| match stored.bot_token {
                Some(t) => trimmed(t@).len() == 0,
                None => match env.bot_token.setting() {
                    Some(t) => trimmed(t).len() == 0,
                    None => true,
                },
            }
            ||| !(stored.api_id matches Some(s) && i32_text(s@) is Some) && !(
            env.api_id.setting() matches Some(e) && i32_text(e) is Some)
        },
{
}

} // verus!
