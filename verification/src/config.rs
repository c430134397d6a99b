//! The bot's settings, as read from the environment.

use vstd::prelude::*;

verus! {

/// The limit on an upload when none is configured, in mebibytes.
pub const DEFAULT_MAX_FILE_SIZE_MB: u64 = 2000;

/// How often a progress message is edited when nothing is configured, in
/// seconds.
pub const DEFAULT_PROGRESS_EDIT_SECS: u64 = 3;

/// The bot's settings.
pub struct Config {
    pub telegram_app_id: i32,
    pub telegram_app_hash: String,
    pub bot_token: String,
    pub owner_id: i64,
    pub astra_api_url: Option<String>,
    pub ytdlp_cookies: Option<String>,
    pub instagram_cookies: Option<String>,
    pub max_file_size_mb: Option<u64>,
    pub progress_edit_secs: Option<u64>,
}

impl Config {
    /// The configured upload limit in mebibytes, or the default.
    pub open spec fn max_file_size_mb_or_default(&self) -> u64 {
        match self.max_file_size_mb {
            Some(m) => m,
            None => DEFAULT_MAX_FILE_SIZE_MB,
        }
    }

    /// The upload limit in bytes: the configured mebibytes (2000 when none
    /// is set) times 1024 * 1024.
    pub fn max_file_size_bytes(&self) -> (r: u64)
        requires
            self.max_file_size_mb_or_default() * 1048576 <= u64::MAX,
        ensures
            r == self.max_file_size_mb_or_default() * 1048576,
    {
        let mb = match self.max_file_size_mb {
            Some(m) => m,
            None => DEFAULT_MAX_FILE_SIZE_MB,
        };
        mb * 1024 * 1024
    }

    /// Seconds between edits of a progress message: the configured value, or
    /// 3.
    pub fn progress_edit_secs(&self) -> (r: u64)
        ensures
            r == (match self.progress_edit_secs {
                Some(s) => s,
                None => DEFAULT_PROGRESS_EDIT_SECS,
            }),
    {
        match self.progress_edit_secs {
            Some(s) => s,
            None => DEFAULT_PROGRESS_EDIT_SECS,
        }
    }
}

} // verus!
