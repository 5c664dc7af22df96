//! Verified core of the DL-Omni download manager: task states, file naming,
//! yt-dlp argument and output handling, chunked download planning and the
//! engine update decisions.

pub mod text;
pub mod models;
pub mod utils;
pub mod ytdlp;
pub mod downloader;
pub mod workers;
pub mod updater;
pub mod config;
pub mod progress;
