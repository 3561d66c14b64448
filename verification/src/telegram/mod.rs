//! The Telegram bot.
pub mod actions;
pub mod config;
pub mod dialogue;
pub mod jobs;
pub mod laws;
pub mod manager;
pub mod media;
pub mod menu;
pub mod messages;
pub mod state;

pub use actions::find_url;
pub use actions::parse_callback_action;
pub use actions::parse_message_action;
pub use actions::TelegramAction;
pub use config::TelegramConfig;
pub use jobs::TempFileGuard;
pub use manager::BotInfo;
pub use manager::TelegramManager;
pub use manager::TelegramStatus;
pub use media::probe_media;
pub use media::MediaMetadata;
pub use menu::build_qualities_inline_markup;
pub use menu::cancel_markup;
pub use menu::format_qualities_menu;
pub use messages::build_media_message;
pub use state::BotState;
pub use state::PendingChoice;
