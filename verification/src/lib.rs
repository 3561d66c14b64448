//! A service around `yt-dlp`: downloads over HTTP and through a Telegram bot.
pub mod admin;
pub mod db;
pub mod double;
pub mod json;
pub mod numeral;
pub mod startup;
pub mod storage;
pub mod telegram;
pub mod text;
pub mod web;
pub mod ytdlp;
