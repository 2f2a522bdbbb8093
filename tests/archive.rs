use ena::board::Board;
use ena::config::{
    board_scraping_config, check_config, AsagiCompatibilityConfig, Config, ConfigError,
    DatabaseMediaConfig, NetworkConfig, OptionScrapingConfig, RateLimitingConfig,
    RateLimitingSettings, RetryBackoffConfig, ScrapingConfig,
};
use ena::database::{
    adjust_timestamp, op_row, post_row, removed_rows, select_media, spoiler_column,
};
use ena::four_chan::{
    index_from_pages, num_to_bool, validate_thread, OpData, Post, PostImage, ThreadError,
    ThreadPage,
};
use ena::html::unescape;
use ena::poller::Thread;
use ena::updater::RemovedStatus;

fn post(no: u64, reply_to: u64) -> Post {
    Post {
        no,
        reply_to,
        time: 1_500_000_000,
        name: None,
        trip: None,
        id: None,
        capcode: None,
        country: None,
        subject: None,
        comment: None,
        op_data: OpData { sticky: false, closed: false, archived: false, archived_on: None },
        image: None,
    }
}

fn settings(interval: u64) -> RateLimitingSettings {
    RateLimitingSettings { interval, max_interval: 10, max_concurrent: 2 }
}

fn config(boards: Vec<(Board, ScrapingConfig)>, factor: u32) -> Config {
    Config {
        boards,
        network: NetworkConfig {
            rate_limiting: RateLimitingConfig {
                media: settings(1),
                thread: settings(1),
                thread_list: settings(1),
            },
            retry_backoff: RetryBackoffConfig { base: 2, factor, max: 8 },
        },
        database_media: DatabaseMediaConfig {
            database_url: "mysql://localhost/asagi".to_string(),
            charset: "utf8mb4".to_string(),
            media_path: "media".to_string(),
        },
        asagi_compat: AsagiCompatibilityConfig {
            adjust_timestamps: false,
            refetch_archived_threads: false,
            always_add_archive_times: false,
            create_index_counters: false,
        },
    }
}

fn scraping() -> ScrapingConfig {
    ScrapingConfig {
        poll_interval: 30,
        fetch_archive: true,
        download_media: true,
        download_thumbs: false,
    }
}

#[test]
fn boards_json() {
    // The archive status of each board as the site's boards.json lists it.
    let listed = [
        ("3", true),
        ("a", true),
        ("b", false),
        ("bant", false),
        ("f", false),
        ("g", true),
        ("int", true),
        ("trash", false),
        ("vg", true),
        ("wsr", true),
    ];
    for (code, is_archived) in listed {
        let board = Board::from_name(code).unwrap();
        assert_eq!(board.name(), code);
        assert_eq!(
            board.is_archived(),
            is_archived,
            "/{}/'s correct archive status is {}",
            board.name(),
            is_archived,
        );
    }
    assert!(Board::from_name("zz").is_none());
}

#[test]
fn merge_takes_overrides() {
    let global = scraping();
    let overrides = OptionScrapingConfig {
        poll_interval: Some(10),
        fetch_archive: None,
        download_media: Some(false),
        download_thumbs: None,
    };
    let merged = global.merge(&overrides);
    assert_eq!(
        merged,
        ScrapingConfig {
            poll_interval: 10,
            fetch_archive: true,
            download_media: false,
            download_thumbs: false
        }
    );
    let b = board_scraping_config(Board::B, &global, &overrides);
    assert!(!b.fetch_archive);
    let g = board_scraping_config(Board::G, &global, &overrides);
    assert!(g.fetch_archive);
}

#[test]
fn config_checks() {
    assert_eq!(check_config(&config(vec![], 2)), Err(ConfigError::NoBoards));
    assert_eq!(
        check_config(&config(vec![(Board::G, scraping())], 1)),
        Err(ConfigError::SmallRetryFactor)
    );
    let zero = ScrapingConfig { poll_interval: 0, ..scraping() };
    assert_eq!(
        check_config(&config(vec![(Board::G, scraping()), (Board::A, zero)], 2)),
        Err(ConfigError::ZeroPollInterval)
    );
    let mut c = config(vec![(Board::G, scraping())], 2);
    c.network.rate_limiting.thread = settings(0);
    assert_eq!(check_config(&c), Err(ConfigError::ZeroRateLimit));
    let mut c = config(vec![(Board::G, scraping())], 2);
    c.network.retry_backoff.base = 0;
    assert_eq!(check_config(&c), Err(ConfigError::ZeroRetryBase));
    let mut c = config(vec![(Board::G, scraping())], 2);
    c.database_media.charset = String::new();
    assert_eq!(check_config(&c), Err(ConfigError::EmptySetting));
    assert_eq!(check_config(&config(vec![(Board::G, scraping())], 2)), Ok(()));
}

#[test]
fn unescape_entities() {
    assert_eq!(unescape("Tom &amp; Jerry&#039;s &lt;b&gt; &quot;x&quot;"), "Tom & Jerry's <b> \"x\"");
    assert_eq!(unescape("&amp;gt;"), "&gt;");
    assert_eq!(unescape("&eacute; &#123; &"), "&eacute; &#123; &");
    assert_eq!(unescape(""), "");
    assert_eq!(unescape("日本&gt;"), "日本>");
}

#[test]
fn thread_validation() {
    assert_eq!(validate_thread(&vec![]), Err(ThreadError::EmptyThread));
    assert_eq!(validate_thread(&vec![post(2, 1)]), Err(ThreadError::InvalidReplyTo));
    assert_eq!(
        validate_thread(&vec![post(1, 0), post(2, 1), post(3, 0)]),
        Err(ThreadError::InvalidReplyTo)
    );
    assert_eq!(validate_thread(&vec![post(1, 0), post(2, 1)]), Ok(()));
}

#[test]
fn pages_are_concatenated_with_bump_indexes() {
    let pages = vec![
        ThreadPage {
            threads: vec![
                Thread { no: 9, last_modified: 5, bump_index: 0 },
                Thread { no: 3, last_modified: 4, bump_index: 0 },
            ],
        },
        ThreadPage { threads: vec![] },
        ThreadPage { threads: vec![Thread { no: 7, last_modified: 1, bump_index: 0 }] },
    ];
    let index = index_from_pages(pages);
    assert_eq!(
        index,
        vec![
            Thread { no: 9, last_modified: 5, bump_index: 0 },
            Thread { no: 3, last_modified: 4, bump_index: 1 },
            Thread { no: 7, last_modified: 1, bump_index: 2 },
        ]
    );
}

#[test]
fn numeric_booleans() {
    assert_eq!(num_to_bool(0), Some(false));
    assert_eq!(num_to_bool(1), Some(true));
    assert_eq!(num_to_bool(2), None);
}

#[test]
fn post_rows() {
    let mut op = post(100, 0);
    op.capcode = Some("manager".to_string());
    op.id = Some("Developer".to_string());
    op.name = Some("A &amp; B".to_string());
    op.subject = Some("&quot;hi&quot;".to_string());
    op.comment = Some("<b>raw</b>".to_string());
    op.op_data = OpData { sticky: true, closed: true, archived: false, archived_on: Some(7) };
    op.image = Some(PostImage {
        filename: "cat".to_string(),
        ext: ".png".to_string(),
        time_millis: 1500000000123,
        filesize: 2048,
        md5: "hash".to_string(),
        image_width: 640,
        image_height: 480,
        thumbnail_width: 125,
        thumbnail_height: 94,
        spoiler: true,
    });
    let row = post_row(op, false);
    assert_eq!(row.num, 100);
    assert_eq!(row.thread_num, 100);
    assert!(row.op);
    assert_eq!(row.timestamp, 1_500_000_000);
    assert_eq!(row.timestamp_expired, 7);
    assert_eq!(row.capcode, "G");
    assert_eq!(row.poster_hash, Some("Dev".to_string()));
    assert_eq!(row.name, Some("A & B".to_string()));
    assert_eq!(row.title, Some("\"hi\"".to_string()));
    assert_eq!(row.comment, Some("<b>raw</b>".to_string()));
    assert!(row.sticky);
    assert!(row.locked);
    assert_eq!(row.media_filename, Some("cat.png".to_string()));
    assert_eq!(row.media_orig, Some("1500000000123.png".to_string()));
    assert_eq!(row.preview_orig, Some("1500000000123s.jpg".to_string()));
    assert_eq!(row.media_hash, Some("hash".to_string()));
    assert!(row.spoiler);

    let mut reply = post(101, 100);
    reply.capcode = Some("mod".to_string());
    reply.id = Some("abcd".to_string());
    let row = post_row(reply, false);
    assert_eq!(row.thread_num, 100);
    assert!(!row.op);
    assert_eq!(row.capcode, "M");
    assert_eq!(row.poster_hash, Some("abcd".to_string()));
    assert_eq!(row.media_filename, None);
    assert_eq!(row.preview_orig, None);
    assert_eq!(row.timestamp_expired, 0);

    let row = post_row(post(102, 100), false);
    assert_eq!(row.capcode, "N");
}

#[test]
fn archived_thread_is_not_locked() {
    let mut op = post(100, 0);
    op.op_data = OpData { sticky: false, closed: true, archived: true, archived_on: Some(9) };
    assert!(!post_row(op, false).locked);
    let row = op_row(100, OpData { sticky: true, closed: true, archived: true, archived_on: Some(9) }, false);
    assert_eq!(row.locked, None);
    assert!(row.sticky);
    assert_eq!(row.timestamp_expired, 9);
    let row = op_row(100, OpData { sticky: false, closed: true, archived: false, archived_on: None }, false);
    assert_eq!(row.locked, Some(true));
}

#[test]
fn timestamps_move_to_new_york() {
    assert_eq!(adjust_timestamp(1_500_000_000, false), 1_500_000_000);
    assert_eq!(adjust_timestamp(1_500_000_000, true), 1_499_985_600);
}

#[test]
fn earliest_instants_stay_unadjusted() {
    // New York's wall-clock time of the earliest instants is out of range.
    let earliest = chrono::DateTime::<chrono::Utc>::MIN_UTC.timestamp();
    let rows = removed_rows(&vec![(5, RemovedStatus::Deleted)], earliest, true);
    assert_eq!(rows[0].timestamp_expired, earliest as u64);
    assert_eq!(adjust_timestamp(earliest as u64, true), earliest as u64);
    // A time past i64::MAX is read as a time before 1970, as the schema column is unsigned.
    assert_eq!(adjust_timestamp(u64::MAX, true), (-18001i64) as u64);
}

#[test]
fn removal_marks() {
    let rows = removed_rows(&vec![(5, RemovedStatus::Deleted), (6, RemovedStatus::Archived)], 77, false);
    assert_eq!(rows.len(), 2);
    assert_eq!((rows[0].num, rows[0].deleted, rows[0].timestamp_expired), (5, true, 77));
    assert_eq!((rows[1].num, rows[1].deleted, rows[1].timestamp_expired), (6, false, 77));
    assert!(!spoiler_column(None));
    assert!(spoiler_column(Some(true)));
}

#[test]
fn media_selection_follows_flags() {
    let rows = || {
        vec![
            (Some("1.jpg".to_string()), Some("1s.jpg".to_string())),
            (None, Some("2s.jpg".to_string())),
            (Some("3.png".to_string()), None),
        ]
    };
    assert_eq!(select_media(rows(), true, true), vec!["1.jpg", "1s.jpg", "2s.jpg", "3.png"]);
    assert_eq!(select_media(rows(), true, false), vec!["1.jpg", "3.png"]);
    assert_eq!(select_media(rows(), false, true), vec!["1s.jpg", "2s.jpg"]);
    assert!(select_media(rows(), false, false).is_empty());
}

#[test]
fn entities() {
    assert_eq!(unescape("&lt;&#039;&amp;&quot;&gt;"), "<'&\">");
}

#[test]
fn complex_entities() {
    assert_eq!(
        unescape("&amp;#039; &amp;gt; &amp;lt; &amp;quot; &amp;amp;"),
        "&#039; &gt; &lt; &quot; &amp;"
    );
}

#[test]
fn no_entities() {
    assert_eq!(unescape("plaintext<br>and <s>tags</s>"), "plaintext<br>and <s>tags</s>");
}

#[test]
fn unknown_entities() {
    assert_eq!(unescape("&epsilon;&#957;&#x3b1;"), "&epsilon;&#957;&#x3b1;");
}
