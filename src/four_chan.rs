//! The data that the site's read-only API serves: pages of a board's thread index and the posts
//! of a thread.

use vstd::prelude::*;

use crate::order::Numbered;
pub use crate::board::Board;
pub use crate::poller::Thread;

verus! {

/// A page of a board's thread index, as the API lists it.
pub struct ThreadPage {
    pub threads: Vec<Thread>,
}

/// The flags that only an opening post carries.
#[derive(Clone, Copy, Debug, PartialEq, Eq, Structural)]
pub struct OpData {
    pub sticky: bool,
    pub closed: bool,
    pub archived: bool,
    /// When the thread was archived, in seconds.
    pub archived_on: Option<u64>,
}

/// The media attached to a post.
pub struct PostImage {
    /// The name of the file as it was uploaded, without its extension.
    pub filename: String,
    /// The extension of the file, with its dot.
    pub ext: String,
    /// The name that the site gave the file: the time of upload in milliseconds.
    pub time_millis: u64,
    pub filesize: u32,
    pub md5: String,
    pub image_width: u16,
    pub image_height: u16,
    pub thumbnail_width: u8,
    pub thumbnail_height: u8,
    pub spoiler: bool,
}

/// A post of a thread.
pub struct Post {
    pub no: u64,
    /// The number of the thread that the post replies to; 0 for an opening post.
    pub reply_to: u64,
    /// When the post was made, in seconds.
    pub time: u64,
    pub name: Option<String>,
    pub trip: Option<String>,
    pub id: Option<String>,
    pub capcode: Option<String>,
    pub country: Option<String>,
    pub subject: Option<String>,
    pub comment: Option<String>,
    pub op_data: OpData,
    pub image: Option<PostImage>,
}

impl Numbered for Post {
    open spec fn spec_no(&self) -> u64 {
        self.no
    }

    fn no(&self) -> (r: u64) {
        self.no
    }
}

/// Why the posts of a thread cannot be taken in.
#[derive(Clone, Copy, Debug, PartialEq, Eq, Structural)]
pub enum ThreadError {
    /// The thread has no post.
    EmptyThread,
    /// The first post replies to a thread, or a later post replies to none.
    InvalidReplyTo,
}

/// What is wrong with the posts of a thread, if anything.
pub open spec fn thread_error(posts: Seq<Post>) -> Option<ThreadError> {
    if posts.len() == 0 {
        Some(ThreadError::EmptyThread)
    } else if posts[0].reply_to != 0 || exists|i: int| 1 <= i < posts.len() && posts[i].reply_to == 0 {
        Some(ThreadError::InvalidReplyTo)
    } else {
        None
    }
}

/// Checks the posts of a fetched thread: there is at least one, the first opens the thread, and
/// every later one replies to it.
pub fn validate_thread(posts: &Vec<Post>) -> (r: Result<(), ThreadError>)
    ensures
        match r {
            Ok(()) => thread_error(posts@) is None,
            Err(e) => thread_error(posts@) == Some(e),
        },
{
    if posts.len() == 0 {
        return Err(ThreadError::EmptyThread);
    }
    if posts[0].reply_to != 0 {
        return Err(ThreadError::InvalidReplyTo);
    }
    let mut i: usize = 1;
    while i < posts.len()
        invariant
            1 <= i <= posts@.len(),
            forall|k: int| 1 <= k < i ==> posts@[k].reply_to != 0,
        decreases posts@.len() - i,
    {
        if posts[i].reply_to == 0 {
            return Err(ThreadError::InvalidReplyTo);
        }
        i = i + 1;
    }
    Ok(())
}

/// The threads of all pages, in page order.
pub open spec fn concat_pages(pages: Seq<ThreadPage>) -> Seq<Thread>
    decreases pages.len(),
{
    if pages.len() == 0 {
        Seq::empty()
    } else {
        concat_pages(pages.drop_last()) + pages.last().threads@
    }
}

/// The index of a board from its pages: the threads of all pages in page order, each with its
/// position as its bump index.
pub fn index_from_pages(pages: Vec<ThreadPage>) -> (r: Vec<Thread>)
    requires
        concat_pages(pages@).len() <= usize::MAX,
    ensures
        r@.len() == concat_pages(pages@).len(),
        forall|i: int|
            0 <= i < r@.len() ==> r@[i].no == concat_pages(pages@)[i].no && r@[i].last_modified
                == concat_pages(pages@)[i].last_modified && r@[i].bump_index == i,
{
    let ghost all = concat_pages(pages@);
    let mut r: Vec<Thread> = Vec::new();
    let mut p: usize = 0;
    while p < pages.len()
        invariant
            p <= pages@.len(),
            all == concat_pages(pages@),
            all.len() <= usize::MAX,
            r@.len() == concat_pages(pages@.take(p as int)).len(),
            forall|i: int|
                0 <= i < r@.len() ==> r@[i].no == concat_pages(pages@.take(p as int))[i].no
                    && r@[i].last_modified == concat_pages(pages@.take(p as int))[i].last_modified
                    && r@[i].bump_index == i,
        decreases pages@.len() - p,
    {
        proof {
            lemma_concat_pages_prefix(pages@, p as int + 1);
        }
        let page = &pages[p];
        let ghost before = concat_pages(pages@.take(p as int));
        assert(pages@.take(p + 1).drop_last() =~= pages@.take(p as int));
        assert(concat_pages(pages@.take(p + 1)) == before + page.threads@);
        let mut k: usize = 0;
        while k < page.threads.len()
            invariant
                k <= page.threads@.len(),
                r@.len() == before.len() + k,
                before.len() + page.threads@.len() <= usize::MAX,
                forall|i: int|
                    0 <= i < r@.len() ==> r@[i].no == (before + page.threads@)[i].no
                        && r@[i].last_modified == (before + page.threads@)[i].last_modified
                        && r@[i].bump_index == i,
            decreases page.threads@.len() - k,
        {
            let t = page.threads[k];
            let bump_index = r.len();
            r.push(Thread { no: t.no, last_modified: t.last_modified, bump_index });
            k = k + 1;
        }
        p = p + 1;
    }
    assert(pages@.take(pages@.len() as int) =~= pages@);
    r
}

proof fn lemma_concat_pages_prefix(pages: Seq<ThreadPage>, n: int)
    requires
        0 <= n <= pages.len(),
    ensures
        concat_pages(pages.take(n)).len() <= concat_pages(pages).len(),
    decreases pages.len() - n,
{
    if n < pages.len() {
        lemma_concat_pages_prefix(pages, n + 1);
        assert(pages.take(n + 1).drop_last() =~= pages.take(n));
    } else {
        assert(pages.take(n) =~= pages);
    }
}

/// Decodes one of the API's numeric booleans: 1 is true, 0 is false, anything else is refused.
pub fn num_to_bool(n: u8) -> (r: Option<bool>)
    ensures
        r == (if n == 1 {
            Some(true)
        } else if n == 0 {
            Some(false)
        } else {
            None
        }),
{
    if n == 1 {
        Some(true)
    } else if n == 0 {
        Some(false)
    } else {
        None
    }
}

} // verus!
