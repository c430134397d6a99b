//! The scrapers and the links each of them takes.

use vstd::prelude::*;

use crate::text::{contains_str, str_contains};

verus! {

/// The CapCut scraper.
pub struct CapCutExtractor;

impl CapCutExtractor {
    /// CapCut links: those containing `capcut.com/` or `capcut.net/`.
    pub fn can_handle(&self, url: &str) -> (r: bool)
        ensures
            r == (str_contains(url, "capcut.com/") || str_contains(url, "capcut.net/")),
    {
        contains_str(url, "capcut.com/") || contains_str(url, "capcut.net/")
    }
}

/// The LinkedIn scraper.
pub struct LinkedInExtractor;

impl LinkedInExtractor {
    /// LinkedIn links: those containing `linkedin.com/`.
    pub fn can_handle(&self, url: &str) -> (r: bool)
        ensures
            r == (str_contains(url, "linkedin.com/")),
    {
        contains_str(url, "linkedin.com/")
    }
}

/// The Pinterest scraper.
pub struct PinterestExtractor;

impl PinterestExtractor {
    /// Pinterest links: those containing `pinterest.com/` or `pin.it/`.
    pub fn can_handle(&self, url: &str) -> (r: bool)
        ensures
            r == (str_contains(url, "pinterest.com/") || str_contains(url, "pin.it/")),
    {
        contains_str(url, "pinterest.com/") || contains_str(url, "pin.it/")
    }
}

/// The Reddit scraper.
pub struct RedditExtractor;

impl RedditExtractor {
    /// Reddit links: those containing `reddit.com/`.
    pub fn can_handle(&self, url: &str) -> (r: bool)
        ensures
            r == (str_contains(url, "reddit.com/")),
    {
        contains_str(url, "reddit.com/")
    }
}

/// The SoundCloud scraper.
pub struct SoundCloudExtractor;

impl SoundCloudExtractor {
    /// SoundCloud links: those containing `soundcloud.com/`.
    pub fn can_handle(&self, url: &str) -> (r: bool)
        ensures
            r == (str_contains(url, "soundcloud.com/")),
    {
        contains_str(url, "soundcloud.com/")
    }
}

/// The Spotify scraper.
pub struct SpotifyExtractor;

impl SpotifyExtractor {
    /// Spotify links: those containing `open.spotify.com/`.
    pub fn can_handle(&self, url: &str) -> (r: bool)
        ensures
            r == (str_contains(url, "open.spotify.com/")),
    {
        contains_str(url, "open.spotify.com/")
    }
}

/// The Terabox scraper.
pub struct TeraboxExtractor;

impl TeraboxExtractor {
    /// Terabox links: those containing `terabox.com/`, `1024tera.com/` or `teraboxapp.com/`.
    pub fn can_handle(&self, url: &str) -> (r: bool)
        ensures
            r == (str_contains(url, "terabox.com/") || str_contains(url, "1024tera.com/") || str_contains(url, "teraboxapp.com/")),
    {
        contains_str(url, "terabox.com/") || contains_str(url, "1024tera.com/") || contains_str(url, "teraboxapp.com/")
    }
}

/// The Threads scraper.
pub struct ThreadsExtractor;

impl ThreadsExtractor {
    /// Threads links: those containing `threads.net/`.
    pub fn can_handle(&self, url: &str) -> (r: bool)
        ensures
            r == (str_contains(url, "threads.net/")),
    {
        contains_str(url, "threads.net/")
    }
}

/// The TikTok scraper.
pub struct TikTokExtractor;

impl TikTokExtractor {
    /// TikTok links: those containing `tiktok.com/`.
    pub fn can_handle(&self, url: &str) -> (r: bool)
        ensures
            r == (str_contains(url, "tiktok.com/")),
    {
        contains_str(url, "tiktok.com/")
    }
}

/// The Twitter scraper.
pub struct TwitterExtractor;

impl TwitterExtractor {
    /// Twitter links: those containing `twitter.com/` or `x.com/`.
    pub fn can_handle(&self, url: &str) -> (r: bool)
        ensures
            r == (str_contains(url, "twitter.com/") || str_contains(url, "x.com/")),
    {
        contains_str(url, "twitter.com/") || contains_str(url, "x.com/")
    }
}

} // verus!
