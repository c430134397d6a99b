//! Verified core of the Nautilus media-downloader bot.

pub mod astra;
pub mod commands;
pub mod config;
pub mod delivery;
pub mod diagnostics;
pub mod endpoint;
pub mod extractors;
pub mod flow;
pub mod html;
pub mod instagram;
pub mod links;
pub mod media;
pub mod patterns;
pub mod ratelimit;
pub mod reddit;
pub mod scrape;
pub mod selection;
pub mod settings;
pub mod sites;
pub mod stats;
pub mod text;
pub mod topics;
pub mod weburl;
pub mod ytdlp;
