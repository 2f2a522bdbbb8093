use ena::board::Board;
use ena::config::{
    AsagiCompatibilityConfig, Config, DatabaseMediaConfig, NetworkConfig, RateLimitingConfig,
    RateLimitingSettings, RetryBackoffConfig,
};
use ena::fetch::FetchError;
use ena::four_chan::{OpData, Post, PostImage};
use ena::poller::{classify, Thread, ThreadUpdate};
use ena::updater::{
    reconcile, Fingerprint, PostMetadata, RemovedStatus, ThreadMetadata, ThreadUpdater,
};

fn op_data(archived: bool) -> OpData {
    OpData { sticky: false, closed: archived, archived, archived_on: None }
}

fn post(no: u64, reply_to: u64, comment: Option<&str>) -> Post {
    Post {
        no,
        reply_to,
        time: 1_500_000_000 + no,
        name: Some("Anonymous".to_string()),
        trip: None,
        id: None,
        capcode: None,
        country: None,
        subject: None,
        comment: comment.map(|c| c.to_string()),
        op_data: op_data(false),
        image: None,
    }
}

fn image(spoiler: bool) -> PostImage {
    PostImage {
        filename: "cat".to_string(),
        ext: ".jpg".to_string(),
        time_millis: 1_500_000_000_123,
        filesize: 1000,
        md5: "abc".to_string(),
        image_width: 100,
        image_height: 80,
        thumbnail_width: 50,
        thumbnail_height: 40,
        spoiler,
    }
}

fn settings() -> RateLimitingSettings {
    RateLimitingSettings { interval: 1, max_interval: 10, max_concurrent: 2 }
}

fn config(refetch_archived_threads: bool, always_add_archive_times: bool) -> Config {
    Config {
        boards: vec![],
        network: NetworkConfig {
            rate_limiting: RateLimitingConfig {
                media: settings(),
                thread: settings(),
                thread_list: settings(),
            },
            retry_backoff: RetryBackoffConfig { base: 2, factor: 2, max: 8 },
        },
        database_media: DatabaseMediaConfig {
            database_url: "mysql://localhost/asagi".to_string(),
            charset: "utf8mb4".to_string(),
            media_path: "media".to_string(),
        },
        asagi_compat: AsagiCompatibilityConfig {
            adjust_timestamps: false,
            refetch_archived_threads,
            always_add_archive_times,
            create_index_counters: false,
        },
    }
}

fn meta(op: OpData, posts: &[(u64, Option<u64>)]) -> ThreadMetadata {
    ThreadMetadata {
        op_data: op,
        posts: posts
            .iter()
            .map(|&(no, hash)| PostMetadata {
                no,
                metadata: Fingerprint { comment_hash: hash, spoiler: None },
            })
            .collect(),
    }
}

#[test]
fn reconcile_finds_new_modified_and_deleted_posts() {
    let posts = vec![
        post(1, 0, Some("op")),
        post(3, 1, Some("edited")),
        post(4, 1, None),
        post(5, 1, Some("new")),
        post(6, 1, None),
    ];
    let prev = meta(op_data(false), &[(1, Some(10)), (2, Some(20)), (3, Some(30)), (4, None)]);
    let curr = meta(
        op_data(false),
        &[(1, Some(10)), (3, Some(31)), (4, None), (5, Some(50)), (6, None)],
    );
    let changes = reconcile(posts, &prev, &curr);
    assert!(changes.op_data.is_none());
    let new: Vec<u64> = changes.new_posts.iter().map(|p| p.no).collect();
    assert_eq!(new, vec![5, 6]);
    assert_eq!(changes.modified_posts, vec![(3, Some("edited".to_string()), None)]);
    assert_eq!(changes.deleted_posts, vec![(2, RemovedStatus::Deleted)]);
}

#[test]
fn reconcile_reports_op_changes() {
    let posts = vec![post(1, 0, None)];
    let prev = meta(op_data(false), &[(1, None)]);
    let curr = meta(OpData { sticky: true, ..op_data(false) }, &[(1, None)]);
    let changes = reconcile(posts, &prev, &curr);
    assert_eq!(changes.op_data, Some(OpData { sticky: true, ..op_data(false) }));
    assert!(changes.new_posts.is_empty());
    assert!(changes.modified_posts.is_empty());
    assert!(changes.deleted_posts.is_empty());
}

#[test]
fn metadata_tells_spoiler_flips_and_edits() {
    let mut a = post(7, 1, Some("text"));
    a.image = Some(image(false));
    let mut b = post(7, 1, Some("text"));
    b.image = Some(image(true));
    let c = post(7, 1, Some("text (USER WAS BANNED FOR THIS POST)"));
    let d = post(7, 1, Some("text"));
    let ma = PostMetadata::from_post(&a);
    let mb = PostMetadata::from_post(&b);
    let mc = PostMetadata::from_post(&c);
    let md = PostMetadata::from_post(&d);
    assert_ne!(ma.metadata, mb.metadata);
    assert_ne!(mc.metadata, md.metadata);
    assert_eq!(ma.metadata.comment_hash, md.metadata.comment_hash);
    assert_eq!(mb.metadata.spoiler, Some(true));
    assert!(md.metadata.comment_hash.is_some());
}

#[test]
fn first_fetch_inserts_whole_thread() {
    let mut updater = ThreadUpdater::new(&config(false, false));
    let writes = updater.process_thread(
        Board::G,
        100,
        false,
        Ok((vec![post(101, 100, None), post(100, 0, Some("op"))], 10)),
        50,
    );
    let nos: Vec<u64> = writes.insert_posts.iter().map(|p| p.no).collect();
    assert_eq!(nos, vec![100, 101]);
    assert!(writes.update_op.is_none());
    assert!(writes.update_posts.is_empty());
    assert!(writes.removed_posts.is_empty());
}

#[test]
fn refetch_inserts_only_new_posts() {
    let mut updater = ThreadUpdater::new(&config(false, false));
    updater.process_thread(
        Board::G,
        100,
        false,
        Ok((vec![post(100, 0, Some("op")), post(101, 100, Some("a"))], 10)),
        50,
    );
    let writes = updater.process_thread(
        Board::G,
        100,
        false,
        Ok((
            vec![post(100, 0, Some("op")), post(101, 100, Some("a")), post(102, 100, None)],
            20,
        )),
        60,
    );
    let nos: Vec<u64> = writes.insert_posts.iter().map(|p| p.no).collect();
    assert_eq!(nos, vec![102]);
    assert!(writes.update_posts.is_empty());
    assert!(writes.removed_posts.is_empty());
    assert_eq!(writes.removed_at, 20);
}

#[test]
fn not_modified_writes_nothing() {
    let mut updater = ThreadUpdater::new(&config(false, false));
    updater.process_thread(Board::G, 100, false, Ok((vec![post(100, 0, None)], 10)), 50);
    let writes = updater.process_thread(Board::G, 100, false, Err(FetchError::NotModified), 60);
    assert!(writes.insert_posts.is_empty());
    assert!(writes.update_op.is_none());
    assert!(writes.update_posts.is_empty());
    assert!(writes.removed_posts.is_empty());
    // The thread is still remembered: a deletion now is recorded.
    let (fetch, removed) = updater.handle_board_update(Board::G, &vec![ThreadUpdate::Deleted(100)]);
    assert!(fetch.is_empty());
    assert_eq!(removed, vec![(100, RemovedStatus::Deleted)]);
}

#[test]
fn not_found_marks_deleted_unless_from_archive() {
    let mut updater = ThreadUpdater::new(&config(false, false));
    let writes = updater.process_thread(
        Board::G,
        100,
        true,
        Err(FetchError::NotFound("uri".to_string())),
        60,
    );
    assert!(writes.removed_posts.is_empty());
    let writes = updater.process_thread(
        Board::G,
        100,
        false,
        Err(FetchError::NotFound("uri".to_string())),
        60,
    );
    assert_eq!(writes.removed_posts, vec![(100, RemovedStatus::Deleted)]);
    assert_eq!(writes.removed_at, 60);
}

#[test]
fn archived_thread_is_forgotten() {
    let mut updater = ThreadUpdater::new(&config(false, false));
    let mut op = post(100, 0, None);
    op.op_data = op_data(true);
    updater.process_thread(Board::G, 100, false, Ok((vec![op], 10)), 50);
    let (_, removed) = updater.handle_board_update(Board::G, &vec![ThreadUpdate::Deleted(100)]);
    assert!(removed.is_empty());
}

#[test]
fn board_update_partitions_updates() {
    let mut updater = ThreadUpdater::new(&config(false, false));
    for no in [1, 2, 3] {
        updater.process_thread(Board::G, no, false, Ok((vec![post(no, 0, None)], 10)), 50);
    }
    let (fetch, removed) = updater.handle_board_update(
        Board::G,
        &vec![
            ThreadUpdate::New(4),
            ThreadUpdate::Modified(1),
            ThreadUpdate::BumpedOff(2),
            ThreadUpdate::Deleted(3),
            ThreadUpdate::Deleted(9),
        ],
    );
    assert_eq!(fetch, vec![4, 1]);
    assert_eq!(removed, vec![(2, RemovedStatus::Archived), (3, RemovedStatus::Deleted)]);
}

#[test]
fn bumped_off_on_unarchived_board_records_nothing() {
    let mut updater = ThreadUpdater::new(&config(false, false));
    updater.process_thread(Board::B, 2, false, Ok((vec![post(2, 0, None)], 10)), 50);
    let (fetch, removed) = updater.handle_board_update(Board::B, &vec![ThreadUpdate::BumpedOff(2)]);
    assert!(fetch.is_empty());
    assert!(removed.is_empty());
}

#[test]
fn bumped_off_refetched_where_configured() {
    let mut updater = ThreadUpdater::new(&config(true, false));
    updater.process_thread(Board::G, 2, false, Ok((vec![post(2, 0, None)], 10)), 50);
    let (fetch, removed) = updater.handle_board_update(Board::G, &vec![ThreadUpdate::BumpedOff(2)]);
    assert_eq!(fetch, vec![2]);
    assert!(removed.is_empty());
    // The metadata is dropped: a deletion reported now finds nothing to mark.
    let (_, removed) = updater.handle_board_update(Board::G, &vec![ThreadUpdate::Deleted(2)]);
    assert!(removed.is_empty());
}

#[test]
fn fresh_thread_flows_to_insert() {
    let updates = classify(&vec![], &vec![Thread { no: 100, last_modified: 10, bump_index: 0 }]);
    assert_eq!(updates, Some(vec![ThreadUpdate::New(100)]));
    let mut updater = ThreadUpdater::new(&config(false, false));
    let (fetch, removed) = updater.handle_board_update(Board::A, &updates.unwrap());
    assert_eq!(fetch, vec![100]);
    assert!(removed.is_empty());
    let writes =
        updater.process_thread(Board::A, 100, false, Ok((vec![post(100, 0, Some("op"))], 10)), 12);
    assert_eq!(writes.insert_posts.len(), 1);
    assert_eq!(writes.insert_posts[0].no, 100);
    assert_eq!(writes.insert_posts[0].comment, Some("op".to_string()));
}
