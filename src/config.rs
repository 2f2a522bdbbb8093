//! The settings of the scraper, and the rules that a configuration must meet.

use vstd::prelude::*;

use crate::board::Board;

verus! {

/// How one board is scraped.
#[derive(Clone, Copy, Debug, PartialEq, Eq, Structural)]
pub struct ScrapingConfig {
    /// Seconds between two polls of the board's index.
    pub poll_interval: u64,
    /// Whether the board's archive endpoint is polled too.
    pub fetch_archive: bool,
    pub download_media: bool,
    pub download_thumbs: bool,
}

/// The settings that one board overrides; the others come from the global settings.
#[derive(Clone, Copy, Debug, PartialEq, Eq, Structural)]
pub struct OptionScrapingConfig {
    pub poll_interval: Option<u64>,
    pub fetch_archive: Option<bool>,
    pub download_media: Option<bool>,
    pub download_thumbs: Option<bool>,
}

/// The override where there is one, else the default.
pub open spec fn or_default<T>(o: Option<T>, d: T) -> T {
    match o {
        Some(v) => v,
        None => d,
    }
}

impl ScrapingConfig {
    /// These settings with the overrides of one board.
    pub fn merge(&self, board: &OptionScrapingConfig) -> (r: Self)
        ensures
            r.poll_interval == or_default(board.poll_interval, self.poll_interval),
            r.fetch_archive == or_default(board.fetch_archive, self.fetch_archive),
            r.download_media == or_default(board.download_media, self.download_media),
            r.download_thumbs == or_default(board.download_thumbs, self.download_thumbs),
    {
        ScrapingConfig {
            poll_interval: board.poll_interval.unwrap_or(self.poll_interval),
            fetch_archive: board.fetch_archive.unwrap_or(self.fetch_archive),
            download_media: board.download_media.unwrap_or(self.download_media),
            download_thumbs: board.download_thumbs.unwrap_or(self.download_thumbs),
        }
    }
}

/// The settings of a board: the global ones with the board's overrides, where the archive is
/// never polled on a board that has none.
pub fn board_scraping_config(
    board: Board,
    global: &ScrapingConfig,
    overrides: &OptionScrapingConfig,
) -> (r: ScrapingConfig)
    ensures
        r.poll_interval == or_default(overrides.poll_interval, global.poll_interval),
        r.fetch_archive == (board.spec_is_archived() && or_default(
            overrides.fetch_archive,
            global.fetch_archive,
        )),
        r.download_media == or_default(overrides.download_media, global.download_media),
        r.download_thumbs == or_default(overrides.download_thumbs, global.download_thumbs),
{
    let merged = global.merge(overrides);
    ScrapingConfig { fetch_archive: board.is_archived() && merged.fetch_archive, ..merged }
}

/// The limits of one fetch pipeline.
#[derive(Clone, Copy, Debug, PartialEq, Eq, Structural)]
pub struct RateLimitingSettings {
    /// The length of a window, in seconds.
    pub interval: u64,
    /// The most requests that start within one window.
    pub max_interval: usize,
    /// The most requests that run at once.
    pub max_concurrent: usize,
}

/// The limits of the three fetch pipelines.
#[derive(Clone, Copy, Debug, PartialEq, Eq, Structural)]
pub struct RateLimitingConfig {
    pub media: RateLimitingSettings,
    pub thread: RateLimitingSettings,
    pub thread_list: RateLimitingSettings,
}

/// The backoff of retried requests.
#[derive(Clone, Copy, Debug, PartialEq, Eq, Structural)]
pub struct RetryBackoffConfig {
    /// The delay before the first retry, in seconds.
    pub base: u64,
    /// The factor that multiplies the delay after each retry.
    pub factor: u32,
    /// The largest delay, in seconds, that is still retried.
    pub max: u64,
}

#[derive(Clone, Copy, Debug, PartialEq, Eq, Structural)]
pub struct NetworkConfig {
    pub rate_limiting: RateLimitingConfig,
    pub retry_backoff: RetryBackoffConfig,
}

/// Where the archive and the media are kept.
pub struct DatabaseMediaConfig {
    pub database_url: String,
    pub charset: String,
    pub media_path: String,
}

/// Settings for compatibility with the legacy archiver's schema.
#[derive(Clone, Copy, Debug, PartialEq, Eq, Structural)]
pub struct AsagiCompatibilityConfig {
    pub adjust_timestamps: bool,
    pub refetch_archived_threads: bool,
    pub always_add_archive_times: bool,
    pub create_index_counters: bool,
}

/// The whole configuration.
pub struct Config {
    /// The boards to scrape, each with its settings.
    pub boards: Vec<(Board, ScrapingConfig)>,
    pub network: NetworkConfig,
    pub database_media: DatabaseMediaConfig,
    pub asagi_compat: AsagiCompatibilityConfig,
}

/// Why a configuration is refused.
#[derive(Clone, Copy, Debug, PartialEq, Eq, Structural)]
pub enum ConfigError {
    /// No board is configured.
    NoBoards,
    /// The retry factor is below 2.
    SmallRetryFactor,
    /// A board polls with an interval of 0 seconds.
    ZeroPollInterval,
    /// A pipeline has a window of 0, or admits no request at all.
    ZeroRateLimit,
    /// The first retry would wait 0 seconds.
    ZeroRetryBase,
    /// The database URL, the charset or the media path is empty.
    EmptySetting,
}

/// The limits of a pipeline admit requests.
pub open spec fn limits_valid(s: RateLimitingSettings) -> bool {
    s.interval >= 1 && s.max_interval >= 1 && s.max_concurrent >= 1
}

/// The first rule that a configuration breaks, if any.
pub open spec fn config_error(c: Config) -> Option<ConfigError> {
    if c.boards@.len() == 0 {
        Some(ConfigError::NoBoards)
    } else if c.network.retry_backoff.factor < 2 {
        Some(ConfigError::SmallRetryFactor)
    } else if exists|i: int| 0 <= i < c.boards@.len() && c.boards@[i].1.poll_interval == 0 {
        Some(ConfigError::ZeroPollInterval)
    } else if !limits_valid(c.network.rate_limiting.media) || !limits_valid(
        c.network.rate_limiting.thread,
    ) || !limits_valid(c.network.rate_limiting.thread_list) {
        Some(ConfigError::ZeroRateLimit)
    } else if c.network.retry_backoff.base == 0 {
        Some(ConfigError::ZeroRetryBase)
    } else if c.database_media.database_url@.len() == 0 || c.database_media.charset@.len() == 0
        || c.database_media.media_path@.len() == 0 {
        Some(ConfigError::EmptySetting)
    } else {
        None
    }
}

fn limits_ok(s: &RateLimitingSettings) -> (r: bool)
    ensures
        r == limits_valid(*s),
{
    s.interval >= 1 && s.max_interval >= 1 && s.max_concurrent >= 1
}

/// Checks the rules that a configuration must meet at startup.
pub fn check_config(c: &Config) -> (r: Result<(), ConfigError>)
    ensures
        match r {
            Ok(()) => config_error(*c) is None,
            Err(e) => config_error(*c) == Some(e),
        },
{
    if c.boards.len() == 0 {
        return Err(ConfigError::NoBoards);
    }
    if c.network.retry_backoff.factor < 2 {
        return Err(ConfigError::SmallRetryFactor);
    }
    let mut i: usize = 0;
    while i < c.boards.len()
        invariant
            i <= c.boards@.len(),
            c.boards@.len() > 0,
            c.network.retry_backoff.factor >= 2,
            forall|k: int| 0 <= k < i ==> c.boards@[k].1.poll_interval != 0,
        decreases c.boards@.len() - i,
    {
        if c.boards[i].1.poll_interval == 0 {
            assert(c.boards@[i as int].1.poll_interval == 0);
            return Err(ConfigError::ZeroPollInterval);
        }
        i = i + 1;
    }
    let limits = &c.network.rate_limiting;
    if !limits_ok(&limits.media) || !limits_ok(&limits.thread) || !limits_ok(&limits.thread_list) {
        return Err(ConfigError::ZeroRateLimit);
    }
    if c.network.retry_backoff.base == 0 {
        return Err(ConfigError::ZeroRetryBase);
    }
    let dm = &c.database_media;
    if dm.database_url.as_str().unicode_len() == 0 || dm.charset.as_str().unicode_len() == 0
        || dm.media_path.as_str().unicode_len() == 0 {
        return Err(ConfigError::EmptySetting);
    }
    Ok(())
}

} // verus!
