//! Subscription management core for a yt-dlp based channel downloader:
//! record bookkeeping, tray and queue state machines, import/export
//! formats and the command-line arguments handed to yt-dlp.

pub mod commands;
pub mod error;
pub mod find;
pub mod models;
pub mod progress_parser;
pub mod services;
pub mod stamp;
pub mod text;
pub mod web;
