//! The rules of the fetcher: conditional requests against remembered `Last-Modified` times,
//! classification of responses, retryability of failures, and where media files are written.

use std::collections::HashMap;

use vstd::prelude::*;

use crate::board::{lemma_index_injective, Board, BOARD_COUNT};
use crate::retry::Retry;

verus! {

broadcast use vstd::std_specs::hash::group_hash_axioms;

/// The site's API.
pub const API_URI_PREFIX: &'static str = "https://a.4cdn.org";

/// The site's media host.
pub const IMG_URI_PREFIX: &'static str = "https://i.4cdn.org";

/// The `Last-Modified` time assumed for a resource that was never fetched, in seconds: a time
/// before the site existed.
pub const DEFAULT_LAST_MODIFIED: i64 = 1065062160;

/// Why a fetch failed.
#[derive(Debug, PartialEq, Eq)]
pub enum FetchError {
    /// The server answered with an unexpected status.
    BadStatus(u16),
    /// The thread has no post.
    EmptyThread,
    /// The media file is already on disk.
    ExistingMedia,
    /// The connection failed, timed out, or its TLS failed.
    HyperError(String),
    /// The first post replies to a thread, or a later post replies to none.
    InvalidReplyTo,
    /// A URI could not be built.
    InvalidUri(String),
    /// Reading or writing a local file failed.
    IoError(String),
    /// The body is not the JSON that was expected.
    JsonError(String),
    /// The resource does not exist.
    NotFound(String),
    /// The resource did not change since it was last fetched.
    NotModified,
}

/// One of the fetcher's pipelines.
#[derive(Clone, Copy, Debug, PartialEq, Eq, Structural)]
pub enum Pipeline {
    /// Thread indexes and archives.
    ThreadList,
    /// Threads.
    Thread,
    /// Media files.
    Media,
}

impl Pipeline {
    /// Whether the pipeline retries failed requests.
    pub open spec fn spec_retries(self) -> bool {
        !(self is ThreadList)
    }

    /// Whether the pipeline retries failed requests.
    pub fn retries(self) -> (r: bool)
        ensures
            r == self.spec_retries(),
    {
        !matches!(self, Pipeline::ThreadList)
    }
}

/// Whether a failure is transient, so that the request may be tried again.
pub open spec fn retryable(e: FetchError, pipeline: Pipeline) -> bool {
    match e {
        FetchError::BadStatus(code) => 500 <= code < 600,
        FetchError::HyperError(_) => true,
        FetchError::IoError(_) => true,
        FetchError::InvalidUri(_) => true,
        FetchError::JsonError(_) => !(pipeline is Thread),
        _ => false,
    }
}

impl FetchError {
    /// Whether the failure is transient: a network failure or a server error, and a body that
    /// does not parse except for a thread's, whose body is then corrupt.
    pub fn is_retryable(&self, pipeline: Pipeline) -> (r: bool)
        ensures
            r == retryable(*self, pipeline),
    {
        match self {
            FetchError::BadStatus(code) => 500 <= *code && *code < 600,
            FetchError::HyperError(_) => true,
            FetchError::IoError(_) => true,
            FetchError::InvalidUri(_) => true,
            FetchError::JsonError(_) => !matches!(pipeline, Pipeline::Thread),
            _ => false,
        }
    }
}

/// Whether a failed request goes back to the retry queue: its pipeline retries, its envelope
/// permits another attempt, and the failure is transient.
pub fn will_retry<T>(retry: &Retry<T>, err: &FetchError, pipeline: Pipeline) -> (r: bool)
    ensures
        r == (pipeline.spec_retries() && retry.spec_delay() <= retry.spec_max() && retryable(
            *err,
            pipeline,
        )),
{
    pipeline.retries() && retry.can_retry() && err.is_retryable(pipeline)
}

/// The resource that a `Last-Modified` time is remembered for: the index of a board, or a
/// thread of a board.
#[derive(Clone, Copy, Debug, PartialEq, Eq, Structural)]
pub struct LastModifiedKey(pub Board, pub Option<u64>);

/// The `Last-Modified` time of each resource, as the server last sent it.
pub struct LastModifiedStore {
    index: Vec<Option<i64>>,
    threads: Vec<HashMap<u64, i64>>,
    thread_nos: Vec<Vec<u64>>,
}

impl LastModifiedStore {
    /// The store holds a slot for each board, and the list of thread numbers of each board holds
    /// each key of its map once.
    pub closed spec fn well_formed(&self) -> bool {
        &&& self.index@.len() == BOARD_COUNT
        &&& self.threads@.len() == BOARD_COUNT
        &&& self.thread_nos@.len() == BOARD_COUNT
        &&& forall|b: int|
            0 <= b < BOARD_COUNT ==> {
                &&& (#[trigger] self.thread_nos@[b])@.no_duplicates()
                &&& self.thread_nos@[b]@.to_set() == self.threads@[b]@.dom()
            }
    }

    /// The time remembered for `key`, if any.
    pub closed spec fn value(&self, key: LastModifiedKey) -> Option<i64> {
        let b = key.0.spec_index() as int;
        match key.1 {
            None => self.index@[b],
            Some(no) => if self.threads@[b]@.contains_key(no) {
                Some(self.threads@[b]@[no])
            } else {
                None
            },
        }
    }

    /// An empty store.
    pub fn new() -> (r: Self)
        ensures
            r.well_formed(),
            forall|k: LastModifiedKey| #[trigger] r.value(k) is None,
    {
        let mut index: Vec<Option<i64>> = Vec::new();
        let mut threads: Vec<HashMap<u64, i64>> = Vec::new();
        let mut thread_nos: Vec<Vec<u64>> = Vec::new();
        let mut i: usize = 0;
        while i < BOARD_COUNT
            invariant
                i <= BOARD_COUNT,
                index@.len() == i,
                threads@.len() == i,
                thread_nos@.len() == i,
                forall|b: int| 0 <= b < i ==> index@[b] is None,
                forall|b: int| 0 <= b < i ==> (#[trigger] threads@[b])@ == Map::<u64, i64>::empty(),
                forall|b: int| 0 <= b < i ==> (#[trigger] thread_nos@[b])@ == Seq::<u64>::empty(),
            decreases BOARD_COUNT - i,
        {
            index.push(None);
            threads.push(HashMap::new());
            thread_nos.push(Vec::new());
            i = i + 1;
        }
        let r = LastModifiedStore { index, threads, thread_nos };
        assert forall|b: int| 0 <= b < BOARD_COUNT implies {
            &&& (#[trigger] r.thread_nos@[b])@.no_duplicates()
            &&& r.thread_nos@[b]@.to_set() == r.threads@[b]@.dom()
        } by {
            assert(r.thread_nos@[b]@.to_set() =~= Set::<u64>::empty());
        }
        assert forall|k: LastModifiedKey| #[trigger] r.value(k) is None by {
            lemma_index_injective(k.0);
        }
        r
    }

    /// The time remembered for `key`, or the default for a resource never fetched.
    pub fn get(&self, key: LastModifiedKey) -> (r: i64)
        requires
            self.well_formed(),
        ensures
            r == match self.value(key) {
                Some(t) => t,
                None => DEFAULT_LAST_MODIFIED,
            },
    {
        let b = key.0.index();
        let found = match key.1 {
            None => self.index[b],
            Some(no) => match self.threads[b].get(&no) {
                Some(t) => Some(*t),
                None => None,
            },
        };
        match found {
            Some(t) => t,
            None => DEFAULT_LAST_MODIFIED,
        }
    }

    /// Remembers `time` for `key`, unless it is older than the time already remembered, which is
    /// then kept and `NotModified` returned. The remembered time of a key never decreases.
    pub fn update(&mut self, key: LastModifiedKey, time: i64) -> (r: Result<(), FetchError>)
        requires
            old(self).well_formed(),
        ensures
            final(self).well_formed(),
            match old(self).value(key) {
                Some(t) if t > time => r == Err::<(), FetchError>(FetchError::NotModified)
                    && final(self).value(key) == old(self).value(key),
                _ => r is Ok && final(self).value(key) == Some(time),
            },
            old(self).value(key) matches Some(t) ==> final(self).value(key) matches Some(u) && t
                <= u,
            forall|k: LastModifiedKey| k != key ==> #[trigger] final(self).value(k) == old(self).value(k),
    {
        let b = key.0.index();
        let current = self.get(key);
        let known = match key.1 {
            None => self.index[b].is_some(),
            Some(no) => self.threads[b].contains_key(&no),
        };
        if known && current > time {
            return Err(FetchError::NotModified);
        }
        match key.1 {
            None => {
                self.index.set(b, Some(time));
            },
            Some(no) => {
                if !known {
                    self.thread_nos[b].push(no);
                }
                self.threads[b].insert(no, time);
                proof {
                    let nb = b as int;
                    if !known {
                        old(self).thread_nos@[nb]@.lemma_push_to_set_commute(no);
                    }
                    assert(self.thread_nos@[nb]@.to_set() =~= self.threads@[nb]@.dom());
                    if !known {
                        assert(self.thread_nos@[nb]@.no_duplicates()) by {
                            assert(!old(self).thread_nos@[nb]@.to_set().contains(no));
                            assert forall|i: int, j: int|
                                0 <= i < j < self.thread_nos@[nb]@.len() implies self.thread_nos@[nb]@[i]
                                != self.thread_nos@[nb]@[j] by {
                                if j == self.thread_nos@[nb]@.len() - 1 {
                                    assert(old(self).thread_nos@[nb]@.contains(
                                        self.thread_nos@[nb]@[i],
                                    ));
                                }
                            }
                        }
                    }
                }
            },
        }
        proof {
            assert forall|k: LastModifiedKey| k != key implies #[trigger] self.value(k) == old(
                self,
            ).value(k) by {
                lemma_index_injective(k.0);
                lemma_index_injective(key.0);
            }
        }
        Ok(())
    }

    /// Forgets every time that is not later than `cutoff`.
    pub fn sweep(&mut self, cutoff: i64)
        requires
            old(self).well_formed(),
        ensures
            final(self).well_formed(),
            forall|k: LastModifiedKey| #[trigger]
                final(self).value(k) == match old(self).value(k) {
                    Some(t) => if t > cutoff {
                        Some(t)
                    } else {
                        None
                    },
                    None => None,
                },
    {
        let mut b: usize = 0;
        while b < BOARD_COUNT
            invariant
                b <= BOARD_COUNT,
                self.well_formed(),
                forall|k: LastModifiedKey| #[trigger]
                    self.value(k) == if k.0.spec_index() < b {
                        match old(self).value(k) {
                            Some(t) => if t > cutoff {
                                Some(t)
                            } else {
                                None
                            },
                            None => None,
                        }
                    } else {
                        old(self).value(k)
                    },
            decreases BOARD_COUNT - b,
        {
            let ghost before = *self;
            let kept_index = match self.index[b] {
                Some(t) => if t > cutoff {
                    Some(t)
                } else {
                    None
                },
                None => None,
            };
            self.index.set(b, kept_index);
            let (kept, kept_nos) = sweep_board(&self.threads[b], &self.thread_nos[b], cutoff);
            self.threads.set(b, kept);
            self.thread_nos.set(b, kept_nos);
            proof {
                assert forall|k: LastModifiedKey| #[trigger]
                    self.value(k) == if k.0.spec_index() < b + 1 {
                        match old(self).value(k) {
                            Some(t) => if t > cutoff {
                                Some(t)
                            } else {
                                None
                            },
                            None => None,
                        }
                    } else {
                        old(self).value(k)
                    } by {
                    lemma_index_injective(k.0);
                    assert(before.value(k) == if k.0.spec_index() < b {
                        match old(self).value(k) {
                            Some(t) => if t > cutoff {
                                Some(t)
                            } else {
                                None
                            },
                            None => None,
                        }
                    } else {
                        old(self).value(k)
                    });
                }
            }
            b = b + 1;
        }
    }
}

/// The entries of one board's map whose time is later than `cutoff`, with their numbers.
fn sweep_board(m: &HashMap<u64, i64>, nos: &Vec<u64>, cutoff: i64) -> (r: (
    HashMap<u64, i64>,
    Vec<u64>,
))
    requires
        nos@.no_duplicates(),
        nos@.to_set() == m@.dom(),
    ensures
        r.1@.no_duplicates(),
        r.1@.to_set() == r.0@.dom(),
        forall|no: u64|
            #[trigger] r.0@.contains_key(no) == (m@.contains_key(no) && m@[no] > cutoff),
        forall|no: u64| #[trigger] r.0@.contains_key(no) ==> r.0@[no] == m@[no],
{
    let mut kept: HashMap<u64, i64> = HashMap::new();
    let mut kept_nos: Vec<u64> = Vec::new();
    let mut i: usize = 0;
    while i < nos.len()
        invariant
            i <= nos@.len(),
            nos@.no_duplicates(),
            nos@.to_set() == m@.dom(),
            kept_nos@.no_duplicates(),
            kept_nos@.to_set() == kept@.dom(),
            forall|no: u64|
                #[trigger] kept@.contains_key(no) == (nos@.take(i as int).contains(no)
                    && m@[no] > cutoff),
            forall|no: u64| #[trigger] kept@.contains_key(no) ==> kept@[no] == m@[no],
        decreases nos@.len() - i,
    {
        let no = nos[i];
        assert(m@.dom().contains(no)) by {
            assert(nos@.to_set().contains(no));
        }
        let t = *m.get(&no).unwrap();
        let ghost prefix = nos@.take(i as int);
        assert(nos@.take(i + 1) =~= prefix.push(no));
        assert(!prefix.contains(no)) by {
            if prefix.contains(no) {
                let k = choose|k: int| 0 <= k < prefix.len() && prefix[k] == no;
                assert(nos@[k] == nos@[i as int]);
            }
        }
        assert forall|x: u64| #[trigger] prefix.push(no).contains(x) == (prefix.contains(x) || x == no) by {
            if prefix.push(no).contains(x) {
                let k = choose|k: int| 0 <= k < prefix.len() + 1 && prefix.push(no)[k] == x;
                if k < prefix.len() {
                    assert(prefix[k] == x);
                }
            }
            if prefix.contains(x) {
                let k = choose|k: int| 0 <= k < prefix.len() && prefix[k] == x;
                assert(prefix.push(no)[k] == x);
            }
            if x == no {
                assert(prefix.push(no)[prefix.len() as int] == x);
            }
        }
        if t > cutoff {
            assert(!kept_nos@.contains(no)) by {
                assert(!kept_nos@.to_set().contains(no));
            }
            proof {
                kept_nos@.lemma_push_to_set_commute(no);
            }
            kept.insert(no, t);
            kept_nos.push(no);
            assert(kept_nos@.to_set() =~= kept@.dom());
        }
        i = i + 1;
    }
    assert(nos@.take(nos@.len() as int) =~= nos@);
    assert forall|no: u64| #[trigger] kept@.contains_key(no) == (m@.contains_key(no) && m@[no] > cutoff) by {
        assert(nos@.contains(no) == nos@.to_set().contains(no));
    }
    (kept, kept_nos)
}

/// The time, in seconds, that an RFC 1123 date (`Sun, 06 Nov 1994 08:49:37 GMT`) stands for, if
/// the text is one.
pub uninterp spec fn http_date_value(s: Seq<char>) -> Option<i64>;

/// The RFC 1123 date of a time given in seconds, if the time is within the representable range.
pub uninterp spec fn http_date_text(t: i64) -> Option<Seq<char>>;

/// Relies on chrono's `NaiveDateTime::parse_from_str` with the RFC 1123 pattern, the result read
/// as UTC: a function of the text alone.
#[verifier::external_body]
fn parse_http_date(s: &str) -> (r: Option<i64>)
    ensures
        r == http_date_value(s@),
{
    match chrono::NaiveDateTime::parse_from_str(s, "%a, %d %b %Y %T GMT") {
        Ok(d) => Some(d.and_utc().timestamp()),
        Err(_) => None,
    }
}

/// Relies on chrono's `DateTime::from_timestamp` (`None` out of range) and `format` with the
/// RFC 1123 pattern: a function of the time alone.
#[verifier::external_body]
fn format_http_date(t: i64) -> (r: Option<String>)
    ensures
        match r {
            Some(s) => http_date_text(t) == Some(s@),
            None => http_date_text(t) is None,
        },
{
    match chrono::DateTime::from_timestamp(t, 0) {
        Some(d) => Some(d.format("%a, %d %b %Y %T GMT").to_string()),
        None => None,
    }
}

/// The `If-Modified-Since` header of a request for `key`: the remembered time of the resource,
/// or the default for one never fetched, as an RFC 1123 date.
pub fn if_modified_since(store: &LastModifiedStore, key: LastModifiedKey) -> (r: Option<String>)
    requires
        store.well_formed(),
    ensures
        ({
            let t = match store.value(key) {
                Some(t) => t,
                None => DEFAULT_LAST_MODIFIED,
            };
            match r {
                Some(s) => http_date_text(t) == Some(s@),
                None => http_date_text(t) is None,
            }
        }),
{
    format_http_date(store.get(key))
}

/// What a conditional request comes to, given the status of the response, the time sent in
/// `If-Modified-Since`, and the time that the response was last modified.
pub open spec fn conditional_result(status: u16, sent: i64, last_modified: i64, uri: String) -> Result<
    i64,
    FetchError,
> {
    if status == 304 {
        Err(FetchError::NotModified)
    } else if status == 404 {
        Err(FetchError::NotFound(uri))
    } else if status == 200 {
        if sent > last_modified {
            Err(FetchError::NotModified)
        } else {
            Ok(last_modified)
        }
    } else {
        Err(FetchError::BadStatus(status))
    }
}

/// Classifies the response to a conditional request: `304` is `NotModified`, `404` is
/// `NotFound`, and `200` gives the new `Last-Modified` time unless it is older than the one sent,
/// a stale body that counts as `NotModified`. Any other status is `BadStatus`.
pub fn classify_response(status: u16, sent: i64, last_modified: i64, uri: String) -> (r: Result<
    i64,
    FetchError,
>)
    ensures
        r == conditional_result(status, sent, last_modified, uri),
{
    if status == 304 {
        Err(FetchError::NotModified)
    } else if status == 404 {
        Err(FetchError::NotFound(uri))
    } else if status == 200 {
        if sent > last_modified {
            Err(FetchError::NotModified)
        } else {
            Ok(last_modified)
        }
    } else {
        Err(FetchError::BadStatus(status))
    }
}

/// The `Last-Modified` time of a response: its header where that parses, else the time now.
pub open spec fn response_time(header: Option<Seq<char>>, now: i64) -> i64 {
    match header {
        Some(h) => match http_date_value(h) {
            Some(t) => t,
            None => now,
        },
        None => now,
    }
}

/// Classifies the response to a conditional request from its status and its `Last-Modified`
/// header.
pub fn response_outcome(status: u16, sent: i64, header: Option<&str>, uri: String, now: i64) -> (r:
    Result<i64, FetchError>)
    ensures
        r == conditional_result(
            status,
            sent,
            response_time(
                match header {
                    Some(h) => Some(h@),
                    None => None,
                },
                now,
            ),
            uri,
        ),
{
    let last_modified = match header {
        Some(h) => match parse_http_date(h) {
            Some(t) => t,
            None => now,
        },
        None => now,
    };
    classify_response(status, sent, last_modified, uri)
}

/// The outcome of a media download from the status of its response.
pub fn media_status(status: u16, uri: String) -> (r: Result<(), FetchError>)
    ensures
        r == (if status == 200 {
            Ok(())
        } else if status == 404 {
            Err(FetchError::NotFound(uri))
        } else {
            Err(FetchError::BadStatus(status))
        }),
{
    if status == 200 {
        Ok(())
    } else if status == 404 {
        Err(FetchError::NotFound(uri))
    } else {
        Err(FetchError::BadStatus(status))
    }
}

/// The outcome of an archive request from the status of its response: archives are fetched
/// without condition.
pub fn archive_status(status: u16) -> (r: Result<(), FetchError>)
    ensures
        r == (if status == 200 {
            Ok(())
        } else {
            Err(FetchError::BadStatus(status))
        }),
{
    if status == 200 {
        Ok(())
    } else {
        Err(FetchError::BadStatus(status))
    }
}

/// The decimal digit of `d`.
pub open spec fn digit_char(d: nat) -> char {
    if d == 0 {
        '0'
    } else if d == 1 {
        '1'
    } else if d == 2 {
        '2'
    } else if d == 3 {
        '3'
    } else if d == 4 {
        '4'
    } else if d == 5 {
        '5'
    } else if d == 6 {
        '6'
    } else if d == 7 {
        '7'
    } else if d == 8 {
        '8'
    } else {
        '9'
    }
}

/// The decimal representation of `n`.
pub open spec fn decimal(n: nat) -> Seq<char>
    decreases n,
{
    if n < 10 {
        seq![digit_char(n)]
    } else {
        decimal(n / 10).push(digit_char(n % 10))
    }
}

fn digit_str(d: u64) -> (r: &'static str)
    requires
        d < 10,
    ensures
        r@ == seq![digit_char(d as nat)],
{
    proof {
        reveal_strlit("0");
        reveal_strlit("1");
        reveal_strlit("2");
        reveal_strlit("3");
        reveal_strlit("4");
        reveal_strlit("5");
        reveal_strlit("6");
        reveal_strlit("7");
        reveal_strlit("8");
        reveal_strlit("9");
    }
    if d == 0 {
        "0"
    } else if d == 1 {
        "1"
    } else if d == 2 {
        "2"
    } else if d == 3 {
        "3"
    } else if d == 4 {
        "4"
    } else if d == 5 {
        "5"
    } else if d == 6 {
        "6"
    } else if d == 7 {
        "7"
    } else if d == 8 {
        "8"
    } else {
        "9"
    }
}

/// Appends the decimal representation of `n`.
pub(crate) fn push_decimal(s: &mut String, n: u64)
    ensures
        final(s)@ == old(s)@ + decimal(n as nat),
    decreases n,
{
    if n >= 10 {
        push_decimal(s, n / 10);
    }
    s.append(digit_str(n % 10));
    assert(decimal(n as nat) =~= if n < 10 {
        seq![digit_char(n as nat)]
    } else {
        decimal((n / 10) as nat).push(digit_char((n % 10) as nat))
    });
}

/// The URI of a board's thread index.
pub fn thread_list_uri(board: Board) -> (r: String)
    ensures
        r@ == API_URI_PREFIX@ + "/"@ + board.spec_name() + "/threads.json"@,
{
    let mut s = String::from_str(API_URI_PREFIX);
    s.append("/");
    s.append(board.name());
    s.append("/threads.json");
    s
}

/// The URI of a board's archive.
pub fn archive_uri(board: Board) -> (r: String)
    ensures
        r@ == API_URI_PREFIX@ + "/"@ + board.spec_name() + "/archive.json"@,
{
    let mut s = String::from_str(API_URI_PREFIX);
    s.append("/");
    s.append(board.name());
    s.append("/archive.json");
    s
}

/// The URI of a thread.
pub fn thread_uri(board: Board, no: u64) -> (r: String)
    ensures
        r@ == API_URI_PREFIX@ + "/"@ + board.spec_name() + "/thread/"@ + decimal(no as nat)
            + ".json"@,
{
    let mut s = String::from_str(API_URI_PREFIX);
    s.append("/");
    s.append(board.name());
    s.append("/thread/");
    push_decimal(&mut s, no);
    s.append(".json");
    s
}

/// The URI of a media file.
pub fn media_uri(board: Board, filename: &str) -> (r: String)
    ensures
        r@ == IMG_URI_PREFIX@ + "/"@ + board.spec_name() + "/"@ + filename@,
{
    let mut s = String::from_str(IMG_URI_PREFIX);
    s.append("/");
    s.append(board.name());
    s.append("/");
    s.append(filename);
    s
}

/// The file is a thumbnail: its name ends with `s.jpg`.
pub open spec fn is_thumb_name(f: Seq<char>) -> bool {
    f.len() >= 5 && f.skip(f.len() - 5) == "s.jpg"@
}

/// Whether a media file is a thumbnail.
pub fn is_thumb(filename: &str) -> (r: bool)
    ensures
        r == is_thumb_name(filename@),
{
    proof {
        reveal_strlit("s.jpg");
    }
    let n = filename.unicode_len();
    if n < 5 {
        return false;
    }
    let r = filename.get_char(n - 5) == 's' && filename.get_char(n - 4) == '.'
        && filename.get_char(n - 3) == 'j' && filename.get_char(n - 2) == 'p'
        && filename.get_char(n - 1) == 'g';
    let ghost tail = filename@.skip(n - 5);
    assert("s.jpg"@ =~= seq!['s', '.', 'j', 'p', 'g']);
    assert(tail[0] == filename@[n - 5] && tail[1] == filename@[n - 4] && tail[2] == filename@[n
        - 3] && tail[3] == filename@[n - 2] && tail[4] == filename@[n - 1]);
    if r {
        assert(tail =~= "s.jpg"@);
    } else {
        assert(tail != "s.jpg"@);
    }
    r
}

/// Where a media file is written, as path components below the media root: first to a
/// temporary file, which is then renamed to its place.
pub struct MediaPaths {
    /// `<board>/tmp/<filename>`.
    pub temp: Vec<String>,
    /// `<board>/<thumb or image>/<first four characters>/<next two characters>/<filename>`.
    pub real: Vec<String>,
}

/// The paths of a media file, or `None` where its name is shorter than six characters.
pub fn media_paths(board: Board, filename: &str) -> (r: Option<MediaPaths>)
    ensures
        r is None <==> filename@.len() < 6,
        r matches Some(p) ==> {
            &&& p.temp@.len() == 3
            &&& p.temp@[0]@ == board.spec_name()
            &&& p.temp@[1]@ == "tmp"@
            &&& p.temp@[2]@ == filename@
            &&& p.real@.len() == 5
            &&& p.real@[0]@ == board.spec_name()
            &&& p.real@[1]@ == (if is_thumb_name(filename@) {
                "thumb"@
            } else {
                "image"@
            })
            &&& p.real@[2]@ == filename@.subrange(0, 4)
            &&& p.real@[3]@ == filename@.subrange(4, 6)
            &&& p.real@[4]@ == filename@
        },
{
    if filename.unicode_len() < 6 {
        return None;
    }
    let thumb = is_thumb(filename);
    let mut temp: Vec<String> = Vec::new();
    temp.push(String::from_str(board.name()));
    temp.push(String::from_str("tmp"));
    temp.push(String::from_str(filename));
    let mut dest: Vec<String> = Vec::new();
    dest.push(String::from_str(board.name()));
    dest.push(String::from_str(if thumb { "thumb" } else { "image" }));
    dest.push(String::from_str(filename.substring_char(0, 4)));
    dest.push(String::from_str(filename.substring_char(4, 6)));
    dest.push(String::from_str(filename));
    Some(MediaPaths { temp, real: dest })
}

} // verus!
