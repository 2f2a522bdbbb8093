//! The rows that the archive receives: posts as the legacy schema stores them, the updates of
//! opening posts and of modified posts, the marks of removed posts, and the choice of the media
//! files to download after an insertion.

use vstd::prelude::*;

use crate::fetch::{decimal, push_decimal};
use crate::four_chan::{OpData, Post};
use crate::html::{unescape, unescaped};
use crate::text::{ascii_upper, chars_of, same_text, string_of, to_ascii_upper};
pub use crate::updater::RemovedStatus;

verus! {

/// The view of an optional text.
pub open spec fn opt_view(o: Option<String>) -> Option<Seq<char>> {
    match o {
        Some(s) => Some(s@),
        None => None,
    }
}

/// The wall-clock time in New York at the instant `t`, in seconds, counted as if it were UTC;
/// `None` where `t`, or its wall-clock time, is out of the representable range.
pub uninterp spec fn new_york_local_of(t: i64) -> Option<i64>;

/// Relies on chrono's `TimeZone::timestamp_opt` with chrono_tz's `America::New_York`, and on
/// `NaiveDateTime::checked_add_offset` (`None` where the wall-clock time leaves the range): the
/// local wall-clock time of an instant, a function of the instant alone.
#[verifier::external_body]
fn new_york_local(t: i64) -> (r: Option<i64>)
    ensures
        r == new_york_local_of(t),
{
    match chrono::TimeZone::timestamp_opt(&chrono_tz::America::New_York, t, 0).single() {
        Some(d) => match d.naive_utc().checked_add_offset(chrono::Offset::fix(d.offset())) {
            Some(local) => Some(local.and_utc().timestamp()),
            None => None,
        },
        None => None,
    }
}

/// A timestamp as the archive stores it: moved to New York's wall-clock time where the legacy
/// schema asks for it.
pub open spec fn adjusted(t: u64, adjust: bool) -> u64 {
    if !adjust {
        t
    } else {
        match new_york_local_of(t as i64) {
            Some(l) => l as u64,
            None => t,
        }
    }
}

/// A timestamp as the archive stores it.
pub fn adjust_timestamp(t: u64, adjust: bool) -> (r: u64)
    ensures
        r == adjusted(t, adjust),
{
    if !adjust {
        t
    } else {
        match new_york_local(t as i64) {
            Some(l) => l as u64,
            None => t,
        }
    }
}

/// The capcode column: `N` for none, `G` for a manager, else the first letter in upper case.
pub open spec fn capcode_code(c: Option<Seq<char>>) -> Seq<char> {
    match c {
        None => seq!['N'],
        Some(s) => if s == seq!['m', 'a', 'n', 'a', 'g', 'e', 'r'] {
            seq!['G']
        } else if s.len() == 0 {
            Seq::empty()
        } else {
            seq![ascii_upper(s[0])]
        },
    }
}

fn capcode_column(capcode: Option<String>) -> (r: String)
    ensures
        r@ == capcode_code(opt_view(capcode)),
{
    match capcode {
        None => string_of(&vec!['N']),
        Some(c) => {
            let manager = string_of(&vec!['m', 'a', 'n', 'a', 'g', 'e', 'r']);
            if same_text(c.as_str(), manager.as_str()) {
                string_of(&vec!['G'])
            } else {
                let chars = chars_of(c.as_str());
                if chars.len() == 0 {
                    string_of(&Vec::new())
                } else {
                    string_of(&vec![to_ascii_upper(chars[0])])
                }
            }
        },
    }
}

/// The poster hash column: the site's `Developer` id is stored as `Dev`.
pub open spec fn poster_hash_code(id: Option<Seq<char>>) -> Option<Seq<char>> {
    match id {
        Some(s) => if s == seq!['D', 'e', 'v', 'e', 'l', 'o', 'p', 'e', 'r'] {
            Some(seq!['D', 'e', 'v'])
        } else {
            Some(s)
        },
        None => None,
    }
}

fn poster_hash_column(id: Option<String>) -> (r: Option<String>)
    ensures
        opt_view(r) == poster_hash_code(opt_view(id)),
{
    match id {
        Some(s) => {
            let developer = string_of(&vec!['D', 'e', 'v', 'e', 'l', 'o', 'p', 'e', 'r']);
            if same_text(s.as_str(), developer.as_str()) {
                Some(string_of(&vec!['D', 'e', 'v']))
            } else {
                Some(s)
            }
        },
        None => None,
    }
}

/// A post as a row of the archive.
pub struct PostRow {
    pub num: u64,
    /// Always 0: only posts of the site are scraped.
    pub subnum: u64,
    pub thread_num: u64,
    pub op: bool,
    pub timestamp: u64,
    pub timestamp_expired: u64,
    pub preview_orig: Option<String>,
    pub preview_w: u8,
    pub preview_h: u8,
    pub media_filename: Option<String>,
    pub media_w: u16,
    pub media_h: u16,
    pub media_size: u32,
    pub media_hash: Option<String>,
    pub media_orig: Option<String>,
    pub spoiler: bool,
    pub capcode: String,
    pub name: Option<String>,
    pub trip: Option<String>,
    pub title: Option<String>,
    /// The comment as the site serves it; it is cleaned on its way to the database.
    pub comment: Option<String>,
    pub sticky: bool,
    pub locked: bool,
    pub poster_hash: Option<String>,
    pub poster_country: Option<String>,
}

/// The unescaped view of an optional text.
pub open spec fn opt_unescaped(o: Option<String>) -> Option<Seq<char>> {
    match o {
        Some(s) => Some(unescaped(s@)),
        None => None,
    }
}

fn unescape_opt(o: Option<String>) -> (r: Option<String>)
    ensures
        opt_view(r) == opt_unescaped(o),
{
    match o {
        Some(s) => Some(unescape(s.as_str())),
        None => None,
    }
}

/// The row of a post. Timestamps are adjusted where `adjust` is set; names and subjects are
/// unescaped; a thread is marked locked only where it was closed before it was archived.
pub fn post_row(post: Post, adjust: bool) -> (r: PostRow)
    ensures
        r.num == post.no,
        r.subnum == 0,
        r.thread_num == (if post.reply_to == 0 {
            post.no
        } else {
            post.reply_to
        }),
        r.op == (post.reply_to == 0),
        r.timestamp == adjusted(post.time, adjust),
        r.timestamp_expired == match post.op_data.archived_on {
            Some(t) => adjusted(t, adjust),
            None => 0,
        },
        r.capcode@ == capcode_code(opt_view(post.capcode)),
        opt_view(r.name) == opt_unescaped(post.name),
        r.trip == post.trip,
        opt_view(r.title) == opt_unescaped(post.subject),
        r.comment == post.comment,
        r.sticky == post.op_data.sticky,
        r.locked == (post.op_data.closed && !post.op_data.archived),
        opt_view(r.poster_hash) == poster_hash_code(opt_view(post.id)),
        r.poster_country == post.country,
        match post.image {
            Some(image) => {
                &&& opt_view(r.media_filename) == Some(image.filename@ + image.ext@)
                &&& opt_view(r.media_orig) == Some(decimal(image.time_millis as nat) + image.ext@)
                &&& opt_view(r.preview_orig) == (if image.thumbnail_width == 0
                    && image.thumbnail_height == 0 {
                    None
                } else {
                    Some(decimal(image.time_millis as nat) + seq!['s', '.', 'j', 'p', 'g'])
                })
                &&& r.media_w == image.image_width
                &&& r.media_h == image.image_height
                &&& r.media_size == image.filesize
                &&& r.media_hash == Some(image.md5)
                &&& r.preview_w == image.thumbnail_width
                &&& r.preview_h == image.thumbnail_height
                &&& r.spoiler == image.spoiler
            },
            None => {
                &&& r.media_filename is None
                &&& r.media_orig is None
                &&& r.preview_orig is None
                &&& r.media_w == 0
                &&& r.media_h == 0
                &&& r.media_size == 0
                &&& r.media_hash is None
                &&& r.preview_w == 0
                &&& r.preview_h == 0
                &&& !r.spoiler
            },
        },
{
    let Post {
        no,
        reply_to,
        time,
        name,
        trip,
        id,
        capcode,
        country,
        subject,
        comment,
        op_data,
        image,
    } = post;
    let timestamp_expired = match op_data.archived_on {
        Some(t) => adjust_timestamp(t, adjust),
        None => 0,
    };
    let mut row = PostRow {
        num: no,
        subnum: 0,
        thread_num: if reply_to == 0 {
            no
        } else {
            reply_to
        },
        op: reply_to == 0,
        timestamp: adjust_timestamp(time, adjust),
        timestamp_expired,
        preview_orig: None,
        preview_w: 0,
        preview_h: 0,
        media_filename: None,
        media_w: 0,
        media_h: 0,
        media_size: 0,
        media_hash: None,
        media_orig: None,
        spoiler: false,
        capcode: capcode_column(capcode),
        name: unescape_opt(name),
        trip,
        title: unescape_opt(subject),
        comment,
        sticky: op_data.sticky,
        locked: op_data.closed && !op_data.archived,
        poster_hash: poster_hash_column(id),
        poster_country: country,
    };
    if let Some(image) = image {
        let mut media_filename = image.filename;
        media_filename.append(image.ext.as_str());
        let mut media_orig = string_of(&Vec::new());
        push_decimal(&mut media_orig, image.time_millis);
        media_orig.append(image.ext.as_str());
        let preview_orig = if image.thumbnail_width == 0 && image.thumbnail_height == 0 {
            None
        } else {
            let mut p = string_of(&Vec::new());
            push_decimal(&mut p, image.time_millis);
            p.append(string_of(&vec!['s', '.', 'j', 'p', 'g']).as_str());
            Some(p)
        };
        row.media_filename = Some(media_filename);
        row.media_orig = Some(media_orig);
        row.preview_orig = preview_orig;
        row.media_w = image.image_width;
        row.media_h = image.image_height;
        row.media_size = image.filesize;
        row.media_hash = Some(image.md5);
        row.preview_w = image.thumbnail_width;
        row.preview_h = image.thumbnail_height;
        row.spoiler = image.spoiler;
    }
    row
}

/// The update of an opening post: its sticky flag and expiry time, and its locked flag only
/// while the thread is not archived, as every archived thread is closed.
pub struct OpRow {
    pub num: u64,
    pub sticky: bool,
    pub timestamp_expired: u64,
    pub locked: Option<bool>,
}

/// The update of the opening post of thread `no`.
pub fn op_row(no: u64, op_data: OpData, adjust: bool) -> (r: OpRow)
    ensures
        r.num == no,
        r.sticky == op_data.sticky,
        r.timestamp_expired == match op_data.archived_on {
            Some(t) => adjusted(t, adjust),
            None => 0,
        },
        r.locked == (if op_data.archived {
            None
        } else {
            Some(op_data.closed)
        }),
{
    OpRow {
        num: no,
        sticky: op_data.sticky,
        timestamp_expired: match op_data.archived_on {
            Some(t) => adjust_timestamp(t, adjust),
            None => 0,
        },
        locked: if op_data.archived {
            None
        } else {
            Some(op_data.closed)
        },
    }
}

/// The mark of a removed post.
pub struct RemovedRow {
    pub num: u64,
    pub deleted: bool,
    pub timestamp_expired: u64,
}

/// The time of a removal as the archive stores it.
pub open spec fn adjusted_time(t: i64, adjust: bool) -> u64 {
    if !adjust {
        t as u64
    } else {
        match new_york_local_of(t) {
            Some(l) => l as u64,
            None => t as u64,
        }
    }
}

/// The marks of removed posts, all with the time of the removal.
pub fn removed_rows(removed: &Vec<(u64, RemovedStatus)>, time: i64, adjust: bool) -> (r: Vec<
    RemovedRow,
>)
    ensures
        r@.len() == removed@.len(),
        forall|i: int|
            0 <= i < r@.len() ==> #[trigger] r@[i].num == removed@[i].0 && r@[i].deleted == (
            removed@[i].1 is Deleted) && r@[i].timestamp_expired == adjusted_time(time, adjust),
{
    let expired = if !adjust {
        time as u64
    } else {
        match new_york_local(time) {
            Some(l) => l as u64,
            None => time as u64,
        }
    };
    let mut rows: Vec<RemovedRow> = Vec::new();
    let mut i: usize = 0;
    while i < removed.len()
        invariant
            i <= removed@.len(),
            expired == adjusted_time(time, adjust),
            rows@.len() == i,
            forall|k: int|
                0 <= k < i ==> (#[trigger] rows@[k]).num == removed@[k].0 && rows@[k].deleted == (
                removed@[k].1 is Deleted) && rows@[k].timestamp_expired == expired,
        decreases removed@.len() - i,
    {
        let (num, status) = removed[i];
        rows.push(
            RemovedRow {
                num,
                deleted: match status {
                    RemovedStatus::Archived => false,
                    RemovedStatus::Deleted => true,
                },
                timestamp_expired: expired,
            },
        );
        i = i + 1;
    }
    rows
}

/// The spoiler column of a modified post: false where it has no image.
pub fn spoiler_column(spoiler: Option<bool>) -> (r: bool)
    ensures
        r == match spoiler {
            Some(s) => s,
            None => false,
        },
{
    match spoiler {
        Some(s) => s,
        None => false,
    }
}

/// The media files to download from the rows that an insertion reports as new: the full file
/// and the thumbnail of each, each where its download is enabled, in the order of the rows.
pub open spec fn media_to_fetch(
    rows: Seq<(Option<String>, Option<String>)>,
    download_media: bool,
    download_thumbs: bool,
) -> Seq<String>
    decreases rows.len(),
{
    if rows.len() == 0 {
        Seq::empty()
    } else {
        let rest = media_to_fetch(rows.drop_last(), download_media, download_thumbs);
        let (media, preview) = rows.last();
        let with_media = match media {
            Some(m) => if download_media {
                rest.push(m)
            } else {
                rest
            },
            None => rest,
        };
        match preview {
            Some(p) => if download_thumbs {
                with_media.push(p)
            } else {
                with_media
            },
            None => with_media,
        }
    }
}

/// The media files to download after an insertion.
pub fn select_media(
    rows: Vec<(Option<String>, Option<String>)>,
    download_media: bool,
    download_thumbs: bool,
) -> (r: Vec<String>)
    ensures
        r@ == media_to_fetch(rows@, download_media, download_thumbs),
{
    let ghost all = rows@;
    let count = rows.len();
    assert(all.len() == count);
    let mut rows = rows;
    let mut pending: Vec<(Option<String>, Option<String>)> = Vec::new();
    while rows.len() > 0
        invariant
            rows@ + pending@.reverse() == all,
        decreases rows@.len(),
    {
        let ghost before = rows@;
        let row = rows.pop().unwrap();
        assert(pending@.push(row).reverse() =~= seq![row] + pending@.reverse());
        assert(rows@ + seq![row] =~= before);
        pending.push(row);
        assert(rows@ + pending@.reverse() =~= all);
    }
    let mut files: Vec<String> = Vec::new();
    let mut n: usize = 0;
    assert(rows@ =~= Seq::<(Option<String>, Option<String>)>::empty());
    assert(all.skip(0) =~= all);
    while pending.len() > 0
        invariant
            pending@.reverse() == all.skip(n as int),
            n + pending@.len() == all.len(),
            all.len() <= usize::MAX,
            files@ == media_to_fetch(all.take(n as int), download_media, download_thumbs),
        decreases pending@.len(),
    {
        let ghost before = pending@;
        let (media, preview) = pending.pop().unwrap();
        assert(before.reverse()[0] == before.last());
        assert(pending@.reverse() =~= before.reverse().skip(1));
        assert(all.skip(n as int).skip(1) =~= all.skip(n + 1));
        assert(all.take(n + 1).drop_last() =~= all.take(n as int));
        assert(all.take(n + 1).last() == all[n as int]);
        if let Some(m) = media {
            if download_media {
                files.push(m);
            }
        }
        if let Some(p) = preview {
            if download_thumbs {
                files.push(p);
            }
        }
        n = n + 1;
    }
    assert(all.take(n as int) =~= all);
    files
}

} // verus!
