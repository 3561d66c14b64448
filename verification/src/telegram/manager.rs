//! The bot as the web server sees it: whether it is set up, whether it runs, and
//! how it is started and stopped.

use std::path::PathBuf;

use vstd::prelude::*;

use crate::telegram::config::optional_config;
use crate::telegram::config::stored_config;
use crate::telegram::config::StoredSettings;
use crate::telegram::config::TelegramConfig;
use crate::telegram::config::TelegramEnv;
use crate::text::copied;
use crate::text::optional_text;

verus! {

/// What is known of the bot while it runs.
#[derive(Debug, Clone)]
pub struct BotInfo {
    pub bot_username: Option<String>,
    pub bot_name: Option<String>,
    pub api_id: i32,
}

/// What the panel shows of the bot.
#[derive(Debug, Clone)]
pub struct TelegramStatus {
    pub configured: bool,
    pub running: bool,
    pub bot_username: Option<String>,
    pub bot_name: Option<String>,
    pub session_file: String,
    pub api_id: Option<i32>,
}

/// The content of a status.
pub ghost struct Status {
    pub configured: bool,
    pub running: bool,
    pub bot_username: Option<Seq<char>>,
    pub bot_name: Option<Seq<char>>,
    pub session_file: Seq<char>,
    pub api_id: Option<int>,
}

impl View for TelegramStatus {
    type V = Status;

    open spec fn view(&self) -> Status {
        Status {
            configured: self.configured,
            running: self.running,
            bot_username: optional_text(self.bot_username),
            bot_name: optional_text(self.bot_name),
            session_file: self.session_file@,
            api_id: match self.api_id {
                Some(n) => Some(n as int),
                None => None,
            },
        }
    }
}

/// The status of a bot with the given information and configuration.
pub open spec fn bot_status(
    info: Option<BotInfo>,
    config: Option<TelegramConfig>,
    session_file: Seq<char>,
) -> Status {
    match (info, config) {
        (Some(info), _) => Status {
            configured: true,
            running: true,
            bot_username: optional_text(info.bot_username),
            bot_name: optional_text(info.bot_name),
            session_file,
            api_id: Some(info.api_id as int),
        },
        (None, Some(config)) => Status {
            configured: true,
            running: false,
            bot_username: None,
            bot_name: None,
            session_file,
            api_id: Some(config.api_id as int),
        },
        (None, None) => Status {
            configured: false,
            running: false,
            bot_username: None,
            bot_name: None,
            session_file,
            api_id: None,
        },
    }
}

/// A bot that is to be started, after the one before it was aborted.
pub struct StartBot<H> {
    pub config: TelegramConfig,
    pub abort: Option<H>,
}

/// The bot cannot be started: a credential is missing.
#[derive(Debug, Clone, Copy, PartialEq, Eq)]
pub struct MissingCredentials;

impl MissingCredentials {
    /// Says so in words.
    pub fn message(&self) -> (r: String)
        ensures
            r@ == "Telegram bot token, api_id, or api_hash missing"@,
    {
        String::from_str("Telegram bot token, api_id, or api_hash missing")
    }
}

/// What is to be done in order to forget the bot: the task to abort, the file to
/// delete where it is there, and the setting to delete from the store.
pub struct Disconnect<H> {
    pub abort: Option<H>,
    pub session_file: String,
    pub setting: String,
}

/// The bot and its surroundings. `H` is a handle on the running bot.
pub struct TelegramManager<H> {
    pub session_file: String,
    pub staging_dir: PathBuf,
    pub bot_task: Option<H>,
    pub bot_info: Option<BotInfo>,
}

impl<H> TelegramManager<H> {
    /// `self` and `other` have the same surroundings.
    pub open spec fn same_place(&self, other: &Self) -> bool {
        self.session_file == other.session_file && self.staging_dir == other.staging_dir
    }

    /// A bot that does not run.
    pub fn new(session_file: String, staging_dir: PathBuf) -> (r: Self)
        ensures
            r.session_file == session_file,
            r.staging_dir == staging_dir,
            r.bot_task is None,
            r.bot_info is None,
    {
        TelegramManager { session_file, staging_dir, bot_task: None, bot_info: None }
    }

    /// Reads the configuration of the bot.
    pub fn get_config(&self, stored: &StoredSettings, env: &TelegramEnv) -> (r: Option<
        TelegramConfig,
    >)
        ensures
            optional_config(r) == stored_config(*stored, *env, self.session_file@),
    {
        TelegramConfig::from_settings(stored, env, self.session_file.as_str())
    }

    /// Tells how the bot stands, given its configuration.
    pub fn get_status(&self, config: Option<&TelegramConfig>) -> (r: TelegramStatus)
        ensures
            r@ == bot_status(
                self.bot_info,
                match config {
                    Some(c) => Some(*c),
                    None => None,
                },
                self.session_file@,
            ),
    {
        match &self.bot_info {
            Some(info) => TelegramStatus {
                configured: true,
                running: true,
                bot_username: copied(&info.bot_username),
                bot_name: copied(&info.bot_name),
                session_file: self.session_file.clone(),
                api_id: Some(info.api_id),
            },
            None => match config {
                Some(c) => TelegramStatus {
                    configured: true,
                    running: false,
                    bot_username: None,
                    bot_name: None,
                    session_file: self.session_file.clone(),
                    api_id: Some(c.api_id),
                },
                None => TelegramStatus {
                    configured: false,
                    running: false,
                    bot_username: None,
                    bot_name: None,
                    session_file: self.session_file.clone(),
                    api_id: None,
                },
            },
        }
    }

    /// Gets ready to start the bot with the given configuration. Where there is
    /// none, the bot is left as it is.
    pub fn start_bot(&mut self, config: Option<TelegramConfig>) -> (r: Result<
        StartBot<H>,
        MissingCredentials,
    >)
        ensures
            match config {
                Some(c) => {
                    &&& r matches Ok(start)
                    &&& start.config == c
                    &&& start.abort == old(self).bot_task
                    &&& final(self).bot_task is None
                    &&& final(self).bot_info is None
                    &&& final(self).same_place(old(self))
                },
                None => r is Err && *final(self) == *old(self),
            },
    {
        match config {
            Some(config) => {
                let abort = self.bot_task.take();
                self.bot_info = None;
                Ok(StartBot { config, abort })
            },
            None => Err(MissingCredentials),
        }
    }

    /// Keeps the handle of the bot that was started.
    pub fn bot_started(&mut self, handle: H)
        ensures
            final(self).bot_task == Some(handle),
            final(self).bot_info == old(self).bot_info,
            final(self).same_place(old(self)),
    {
        self.bot_task = Some(handle);
    }

    /// Keeps what the running bot tells of itself.
    pub fn bot_running(&mut self, info: BotInfo)
        ensures
            final(self).bot_info == Some(info),
            final(self).bot_task == old(self).bot_task,
            final(self).same_place(old(self)),
    {
        self.bot_info = Some(info);
    }

    /// Forgets what the bot told of itself, which has ended.
    pub fn bot_ended(&mut self)
        ensures
            final(self).bot_info is None,
            final(self).bot_task == old(self).bot_task,
            final(self).same_place(old(self)),
    {
        self.bot_info = None;
    }

    /// Stops the bot: hands out the handle of its task, to be aborted. Without a
    /// task nothing changes.
    pub fn stop_bot(&mut self) -> (r: Option<H>)
        ensures
            r == old(self).bot_task,
            final(self).bot_task is None,
            final(self).bot_info == (if old(self).bot_task is Some {
                None
            } else {
                old(self).bot_info
            }),
            final(self).same_place(old(self)),
    {
        let handle = self.bot_task.take();
        if handle.is_some() {
            self.bot_info = None;
        }
        handle
    }

    /// Stops the bot and forgets its token and its session.
    pub fn disconnect(&mut self) -> (r: Disconnect<H>)
        ensures
            r.abort == old(self).bot_task,
            r.session_file@ == old(self).session_file@,
            r.setting@ == "tg_bot_token"@,
            final(self).bot_task is None,
            final(self).bot_info == (if old(self).bot_task is Some {
                None
            } else {
                old(self).bot_info
            }),
            final(self).same_place(old(self)),
    {
        let abort = self.stop_bot();
        Disconnect {
            abort,
            session_file: self.session_file.clone(),
            setting: String::from_str("tg_bot_token"),
        }
    }

    /// Gets ready to start the bot when the server starts, if it is set up.
    pub fn init_from_db(&mut self, config: Option<TelegramConfig>) -> (r: Option<StartBot<H>>)
        ensures
            match config {
                Some(c) => {
                    &&& r matches Some(start)
                    &&& start.config == c
                    &&& start.abort == old(self).bot_task
                    &&& final(self).bot_task is None
                    &&& final(self).bot_info is None
                    &&& final(self).same_place(old(self))
                },
                None => r is None && *final(self) == *old(self),
            },
    {
        match self.start_bot(config) {
            Ok(start) => Some(start),
            Err(_) => None,
        }
    }
}

/// A bot that runs is set up, whatever the settings hold.
pub proof fn law_running_is_configured(
    info: Option<BotInfo>,
    config: Option<TelegramConfig>,
    session_file: Seq<char>,
)
    ensures
        bot_status(info, config, session_file).running ==> bot_status(
            info,
            config,
            session_file,
        ).configured,
        bot_status(info, config, session_file).running <==> info is Some,
{
}

// ---------------------------------------------------------------------------
// Laws
// ---------------------------------------------------------------------------


/// What the panel shows of the bot: of one that runs what it told of itself, and of
/// one that does not whether it is set up.
pub proof fn law_status_shown(
    info: BotInfo,
    config: TelegramConfig,
    any: Option<TelegramConfig>,
    session_file: Seq<char>,
    status: TelegramStatus,
)
    ensures
        bot_status(Some(info), any, session_file) == (Status {
            configured: true,
            running: true,
            bot_username: optional_text(info.bot_username),
            bot_name: optional_text(info.bot_name),
            session_file,
            api_id: Some(info.api_id as int),
        }),
        bot_status(None, Some(config), session_file) == (Status {
            configured: true,
            running: false,
            bot_username: None,
            bot_name: None,
            session_file,
            api_id: Some(config.api_id as int),
        }),
        bot_status(None, None, session_file) == (Status {
            configured: false,
            running: false,
            bot_username: None,
            bot_name: None,
            session_file,
            api_id: None,
        }),
        status@.configured == status.configured,
        status@.running == status.running,
        status@.bot_username == optional_text(status.bot_username),
        status@.bot_name == optional_text(status.bot_name),
        status@.session_file == status.session_file@,
        status.api_id matches Some(n) ==> status@.api_id == Some(n as int),
        status.api_id is None ==> status@.api_id is None,
{
}

/// Starting and stopping leave the session file and the staging directory alone.
pub proof fn law_same_place<H>(a: TelegramManager<H>, b: TelegramManager<H>)
    ensures
        a.same_place(&b) <==> a.session_file == b.session_file && a.staging_dir == b.staging_dir,
{
}

} // verus!
