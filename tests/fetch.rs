use ena::board::Board;
use ena::config::{RateLimitingSettings, RetryBackoffConfig};
use ena::fetch::{
    archive_status, archive_uri, classify_response, if_modified_since, is_thumb, media_paths,
    media_status, media_uri, response_outcome, thread_list_uri, thread_uri, will_retry,
    FetchError, LastModifiedKey, LastModifiedStore, Pipeline, DEFAULT_LAST_MODIFIED,
};
use ena::rate_limiter::RateLimiter;
use ena::retry::Retry;

#[test]
fn conditional_fetch_returns_304() {
    let r = classify_response(304, 100, 0, "uri".to_string());
    assert_eq!(r, Err(FetchError::NotModified));
}

#[test]
fn conditional_fetch_statuses() {
    assert_eq!(
        classify_response(404, 100, 0, "u".to_string()),
        Err(FetchError::NotFound("u".to_string()))
    );
    assert_eq!(classify_response(200, 100, 150, "u".to_string()), Ok(150));
    assert_eq!(classify_response(200, 100, 100, "u".to_string()), Ok(100));
    assert_eq!(classify_response(200, 100, 99, "u".to_string()), Err(FetchError::NotModified));
    assert_eq!(classify_response(503, 100, 150, "u".to_string()), Err(FetchError::BadStatus(503)));
}

#[test]
fn last_modified_header_is_parsed() {
    let r = response_outcome(200, 0, Some("Sun, 06 Nov 1994 08:49:37 GMT"), "u".to_string(), 5);
    assert_eq!(r, Ok(784111777));
    // Without a header, or with one that does not parse, the time now is used.
    assert_eq!(response_outcome(200, 0, None, "u".to_string(), 5), Ok(5));
    assert_eq!(response_outcome(200, 0, Some("yesterday"), "u".to_string(), 5), Ok(5));
    assert_eq!(
        response_outcome(200, 784111778, Some("Sun, 06 Nov 1994 08:49:37 GMT"), "u".to_string(), 5),
        Err(FetchError::NotModified)
    );
}

#[test]
fn if_modified_since_is_rfc_1123() {
    let mut store = LastModifiedStore::new();
    let key = LastModifiedKey(Board::G, Some(5));
    assert_eq!(
        if_modified_since(&store, key),
        Some("Thu, 02 Oct 2003 02:36:00 GMT".to_string())
    );
    store.update(key, 784111777).unwrap();
    assert_eq!(
        if_modified_since(&store, key),
        Some("Sun, 06 Nov 1994 08:49:37 GMT".to_string())
    );
}

#[test]
fn last_modified_never_regresses() {
    let mut store = LastModifiedStore::new();
    let key = LastModifiedKey(Board::A, None);
    assert_eq!(store.get(key), DEFAULT_LAST_MODIFIED);
    assert_eq!(store.update(key, 100), Ok(()));
    assert_eq!(store.update(key, 200), Ok(()));
    assert_eq!(store.update(key, 150), Err(FetchError::NotModified));
    assert_eq!(store.get(key), 200);
    assert_eq!(store.update(key, 200), Ok(()));
    assert_eq!(store.get(key), 200);
    // Keys are independent.
    let thread = LastModifiedKey(Board::A, Some(1));
    assert_eq!(store.get(thread), DEFAULT_LAST_MODIFIED);
    assert_eq!(store.update(thread, 50), Ok(()));
    assert_eq!(store.get(thread), 50);
    assert_eq!(store.get(key), 200);
}

#[test]
fn sweep_forgets_old_times() {
    let mut store = LastModifiedStore::new();
    let old = LastModifiedKey(Board::V, Some(1));
    let fresh = LastModifiedKey(Board::V, Some(2));
    let index = LastModifiedKey(Board::V, None);
    store.update(old, 100).unwrap();
    store.update(fresh, 300).unwrap();
    store.update(index, 100).unwrap();
    store.sweep(200);
    assert_eq!(store.get(old), DEFAULT_LAST_MODIFIED);
    assert_eq!(store.get(fresh), 300);
    assert_eq!(store.get(index), DEFAULT_LAST_MODIFIED);
    // A forgotten time can be set again, even to an older one.
    assert_eq!(store.update(old, 50), Ok(()));
}

#[test]
fn retryability_by_error_kind() {
    assert!(FetchError::HyperError("timeout".to_string()).is_retryable(Pipeline::Thread));
    assert!(FetchError::BadStatus(503).is_retryable(Pipeline::Media));
    assert!(!FetchError::BadStatus(403).is_retryable(Pipeline::Media));
    assert!(!FetchError::NotFound("u".to_string()).is_retryable(Pipeline::Thread));
    assert!(!FetchError::NotModified.is_retryable(Pipeline::Thread));
    assert!(!FetchError::EmptyThread.is_retryable(Pipeline::Thread));
    assert!(!FetchError::InvalidReplyTo.is_retryable(Pipeline::Thread));
    assert!(!FetchError::ExistingMedia.is_retryable(Pipeline::Media));
    assert!(!FetchError::JsonError("eof".to_string()).is_retryable(Pipeline::Thread));
    assert!(FetchError::JsonError("eof".to_string()).is_retryable(Pipeline::ThreadList));
}

#[test]
fn retry_then_succeed() {
    let config = RetryBackoffConfig { base: 2, factor: 2, max: 8 };
    let mut retry = Retry::new(("g", "1500000000123.jpg"), &config);
    let err = FetchError::BadStatus(503);
    let mut delays = vec![];
    for _attempt in 0..3 {
        assert!(will_retry(&retry, &err, Pipeline::Media));
        delays.push(retry.schedule());
    }
    assert_eq!(delays, vec![2, 4, 8]);
    // The fourth attempt succeeds; a fifth failure would not have been retried.
    assert!(!will_retry(&retry, &err, Pipeline::Media));
    assert_eq!(retry.into_data(), ("g", "1500000000123.jpg"));
}

#[test]
fn retry_delay_grows() {
    let config = RetryBackoffConfig { base: 3, factor: 5, max: 100 };
    let mut retry = Retry::new(0u8, &config);
    let before = retry.delay();
    assert_eq!(u128::from(retry.schedule()), before);
    assert!(retry.delay() > before);
    assert_eq!(retry.delay(), 15);
    let mut huge = Retry::new(0u8, &RetryBackoffConfig { base: u64::MAX, factor: 2, max: u64::MAX });
    assert_eq!(huge.schedule(), u64::MAX);
    assert_eq!(huge.delay(), u64::MAX as u128 * 2);
}

#[test]
fn thread_list_pipeline_does_not_retry() {
    let config = RetryBackoffConfig { base: 1, factor: 2, max: 8 };
    let retry = Retry::new((), &config);
    assert!(!will_retry(&retry, &FetchError::HyperError("reset".to_string()), Pipeline::ThreadList));
}

#[test]
fn rate_limiter_caps_window_and_concurrency() {
    let settings = RateLimitingSettings { interval: 1, max_interval: 3, max_concurrent: 2 };
    let mut limiter = RateLimiter::new(&settings);
    assert!(limiter.try_admit(0));
    assert!(limiter.try_admit(10));
    // Two run: the third waits.
    assert!(!limiter.try_admit(20));
    limiter.complete();
    assert!(limiter.try_admit(30));
    limiter.complete();
    // Three started in the window that opened at 0.
    assert!(!limiter.try_admit(999));
    assert_eq!(limiter.in_flight(), 1);
    // The window is over after one second.
    assert!(limiter.try_admit(1000));
    assert_eq!(limiter.in_flight(), 2);
}

#[test]
fn uris() {
    assert_eq!(thread_list_uri(Board::G), "https://a.4cdn.org/g/threads.json");
    assert_eq!(archive_uri(Board::Three), "https://a.4cdn.org/3/archive.json");
    assert_eq!(thread_uri(Board::Vg, 1234567), "https://a.4cdn.org/vg/thread/1234567.json");
    assert_eq!(thread_uri(Board::A, 0), "https://a.4cdn.org/a/thread/0.json");
    assert_eq!(media_uri(Board::G, "1500000000123s.jpg"), "https://i.4cdn.org/g/1500000000123s.jpg");
}

#[test]
fn media_layout() {
    assert!(is_thumb("1500000000123s.jpg"));
    assert!(!is_thumb("1500000000123.jpg"));
    let paths = media_paths(Board::G, "1500000000123s.jpg").unwrap();
    assert_eq!(paths.temp, vec!["g", "tmp", "1500000000123s.jpg"]);
    assert_eq!(paths.real, vec!["g", "thumb", "1500", "00", "1500000000123s.jpg"]);
    let paths = media_paths(Board::G, "1500000000123.webm").unwrap();
    assert_eq!(paths.real, vec!["g", "image", "1500", "00", "1500000000123.webm"]);
    assert!(media_paths(Board::G, "1.jpg").is_none());
}

#[test]
fn media_and_archive_statuses() {
    assert_eq!(media_status(200, "u".to_string()), Ok(()));
    assert_eq!(media_status(404, "u".to_string()), Err(FetchError::NotFound("u".to_string())));
    assert_eq!(media_status(503, "u".to_string()), Err(FetchError::BadStatus(503)));
    assert_eq!(archive_status(200), Ok(()));
    assert_eq!(archive_status(500), Err(FetchError::BadStatus(500)));
}
