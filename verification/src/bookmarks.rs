//! The crawl for a user's bookmarks: page by page, each novel to a file of
//! its own. A work that the platform masks is passed over, and so is one
//! whose file exists.

use crate::answer::{
    bookmark_page, bookmark_page_answer, bookmarks_seen, get_novel_content, novel_answer, Bookmark,
    BookmarkView,
};
use crate::crawl::{
    browser, get_response, plain, plain_request, Action, ActionView, Pacing, Reply, ReplyView,
    RequestView,
};
use crate::error::CrawlError;
use crate::pixiv::{file_name, fit_for_names, names_work, saves};
use crate::reference::{bookmarks_address, bookmarks_url, novel_address, novel_url};
use crate::trusted::text_of;
use vstd::pervasive::unreached;
use vstd::prelude::*;

verus! {

/// Where a bookmark crawl stands: what it has asked for last.
#[derive(Clone, Copy, Debug, PartialEq, Eq, Structural)]
pub enum BookmarkPhase {
    /// A page of bookmarks.
    Page,
    /// Whether the file of the work at hand exists.
    Probe,
    /// The novel at hand.
    Item,
    /// The write of that novel's file.
    Saving,
    /// The rest after that novel.
    ItemRest,
    /// The rest after a page.
    PageRest,
    Done,
    Failed(CrawlError),
}

/// The crawl for a user's bookmarks.
pub struct BookmarkCrawl {
    phase: BookmarkPhase,
    uid: String,
    cookie: String,
    offset: u64,
    pages: u64,
    total: u64,
    downloaded: u64,
    page: Vec<Bookmark>,
    next: usize,
    pacing: Pacing,
}

/// What a `BookmarkCrawl` holds.
pub struct BookmarkCrawlView {
    pub phase: BookmarkPhase,
    /// The id of the user.
    pub uid: Seq<char>,
    /// The session cookie.
    pub cookie: Seq<char>,
    /// Where the page that is asked for next begins.
    pub offset: nat,
    /// The number of pages that the crawl has closed.
    pub pages: nat,
    /// The number of the user's bookmarks, as the last page gave it.
    pub total: u64,
    /// The number of novels that the crawl has saved.
    pub downloaded: nat,
    /// The bookmarks of the page at hand.
    pub page: Seq<BookmarkView>,
    /// The place on the page of the bookmark at hand.
    pub next: int,
    pub pacing: Pacing,
}

/// The number of bookmarks that a page is asked to hold.
pub open spec fn page_size() -> nat {
    24
}

/// The offset has grown by the size of a page with every page that was
/// closed, and the bookmark at hand, while there is one, is a work that the
/// platform does not mask.
pub open spec fn bookmarks_wf(s: BookmarkCrawlView) -> bool {
    &&& 0 <= s.next <= s.page.len()
    &&& s.offset == page_size() * s.pages
    &&& (s.phase == BookmarkPhase::Probe || s.phase == BookmarkPhase::Item || s.phase
        == BookmarkPhase::Saving || s.phase == BookmarkPhase::ItemRest) ==> s.next < s.page.len()
        && s.page[s.next] is Work
}

/// The place of the first work at or after `from` that is not masked; the
/// length of the page if there is none.
pub open spec fn next_work(page: Seq<BookmarkView>, from: int) -> int
    decreases page.len() - from,
{
    if from < 0 || from >= page.len() {
        page.len() as int
    } else if page[from] is Work {
        from
    } else {
        next_work(page, from + 1)
    }
}

/// The crawl stops with the failure `e`.
pub open spec fn bookmarks_fail(
    pre: BookmarkCrawlView,
    post: BookmarkCrawlView,
    action: ActionView,
    e: CrawlError,
) -> bool {
    post == (BookmarkCrawlView { phase: BookmarkPhase::Failed(e), ..pre }) && action
        == ActionView::Abort(e)
}

/// The request for the page of bookmarks that `s` asks for next.
pub open spec fn page_request(s: BookmarkCrawlView) -> RequestView {
    RequestView {
        url: bookmarks_address(s.uid, s.offset),
        user_agent: browser(),
        cookie: Some(s.cookie),
    }
}

/// What the crawl `s` does before the place `s.next` of its page. Masked
/// works are passed over. For the first other work the crawl asks whether
/// its file exists. Where no such work is left the page is closed: the
/// offset grows by the size of a page, and the crawl is complete if it has
/// saved as many novels as the user has bookmarks; else it rests before the
/// next page.
pub open spec fn bookmarks_move_on(
    s: BookmarkCrawlView,
    post: BookmarkCrawlView,
    action: ActionView,
) -> bool {
    let n = next_work(s.page, s.next);
    if n < s.page.len() {
        &&& post == (BookmarkCrawlView { phase: BookmarkPhase::Probe, next: n, ..s })
        &&& action matches ActionView::Probe(name)
        &&& s.page[n] matches BookmarkView::Work { id, title, author }
        &&& names_work(name, title, author)
        &&& fit_for_names(name)
    } else {
        let closed = BookmarkCrawlView {
            next: s.page.len() as int,
            offset: s.offset + page_size(),
            pages: s.pages + 1,
            ..s
        };
        if s.downloaded == s.total {
            post == (BookmarkCrawlView { phase: BookmarkPhase::Done, ..closed }) && action
                == ActionView::Finish
        } else {
            post == (BookmarkCrawlView { phase: BookmarkPhase::PageRest, ..closed }) && action
                == ActionView::Pause(s.pacing.bookmark_page)
        }
    }
}

/// The id of the bookmark at hand.
pub open spec fn id_at_hand(s: BookmarkCrawlView) -> Seq<char> {
    match s.page[s.next] {
        BookmarkView::Work { id, .. } => id,
        BookmarkView::Masked { .. } => Seq::empty(),
    }
}

/// How the crawl for the bookmarks of the user `uid` begins: with the
/// request for the first page, which carries the cookie. Without a cookie
/// the crawl fails before anything is sent.
pub open spec fn bookmarks_start(
    uid: Seq<char>,
    cookie: Option<Seq<char>>,
    pacing: Pacing,
    post: BookmarkCrawlView,
    action: ActionView,
) -> bool {
    let blank = BookmarkCrawlView {
        phase: BookmarkPhase::Page,
        uid,
        cookie: Seq::empty(),
        offset: 0,
        pages: 0,
        total: 0,
        downloaded: 0,
        page: Seq::empty(),
        next: 0,
        pacing,
    };
    match cookie {
        None => bookmarks_fail(blank, post, action, CrawlError::Config),
        Some(c) => post == (BookmarkCrawlView { cookie: c, ..blank }) && action
            == ActionView::Fetch(page_request(post)),
    }
}

/// One step of the crawl for a user's bookmarks: from `pre`, told `reply`,
/// it goes to `post` and asks for `action`.
pub open spec fn bookmarks_step(
    pre: BookmarkCrawlView,
    reply: ReplyView,
    post: BookmarkCrawlView,
    action: ActionView,
) -> bool {
    match pre.phase {
        BookmarkPhase::Page => match reply {
            ReplyView::Body(text) => match bookmark_page_answer(text) {
                Ok(page) => bookmarks_move_on(
                    BookmarkCrawlView { total: page.total, page: page.works, next: 0, ..pre },
                    post,
                    action,
                ),
                Err(e) => bookmarks_fail(pre, post, action, CrawlError::Parse(e)),
            },
            _ => bookmarks_fail(pre, post, action, CrawlError::Network),
        },
        BookmarkPhase::Probe => match reply {
            ReplyView::Found(true) => bookmarks_move_on(
                BookmarkCrawlView { next: pre.next + 1, ..pre },
                post,
                action,
            ),
            ReplyView::Found(false) => post == (BookmarkCrawlView {
                phase: BookmarkPhase::Item,
                ..pre
            }) && action == ActionView::Fetch(plain_request(novel_address(id_at_hand(pre)))),
            _ => bookmarks_fail(pre, post, action, CrawlError::File),
        },
        BookmarkPhase::Item => match reply {
            ReplyView::Body(text) => match novel_answer(text, id_at_hand(pre)) {
                Ok(novel) => post == (BookmarkCrawlView { phase: BookmarkPhase::Saving, ..pre }) && (
                action matches ActionView::Write(w) && saves(w, novel)),
                Err(e) => bookmarks_fail(pre, post, action, CrawlError::Parse(e)),
            },
            _ => bookmarks_fail(pre, post, action, CrawlError::Network),
        },
        BookmarkPhase::Saving => match reply {
            ReplyView::Written => post == (BookmarkCrawlView {
                phase: BookmarkPhase::ItemRest,
                downloaded: pre.downloaded + 1,
                ..pre
            }) && action == ActionView::Pause(pre.pacing.bookmark_item),
            _ => bookmarks_fail(pre, post, action, CrawlError::File),
        },
        BookmarkPhase::ItemRest => bookmarks_move_on(
            BookmarkCrawlView { next: pre.next + 1, ..pre },
            post,
            action,
        ),
        BookmarkPhase::PageRest => post == (BookmarkCrawlView { phase: BookmarkPhase::Page, ..pre })
            && action == ActionView::Fetch(page_request(pre)),
        BookmarkPhase::Done => post == pre && action == ActionView::Finish,
        BookmarkPhase::Failed(e) => post == pre && action == ActionView::Abort(e),
    }
}

impl View for BookmarkCrawl {
    type V = BookmarkCrawlView;

    closed spec fn view(&self) -> BookmarkCrawlView {
        BookmarkCrawlView {
            phase: self.phase,
            uid: self.uid@,
            cookie: self.cookie@,
            offset: self.offset as nat,
            pages: self.pages as nat,
            total: self.total,
            downloaded: self.downloaded as nat,
            page: bookmarks_seen(self.page@),
            next: self.next as int,
            pacing: self.pacing,
        }
    }
}

/// Begins the crawl for the bookmarks of the user `uid`.
pub fn download_user_bookmarks(uid: String, cookie: Option<String>, pacing: Pacing) -> (begun: (
    BookmarkCrawl,
    Action,
))
    ensures
        bookmarks_start(uid@, text_of(cookie), pacing, begun.0@, begun.1@),
        bookmarks_wf(begun.0@),
{
    let page: Vec<Bookmark> = Vec::new();
    proof {
        assert(bookmarks_seen(page@) =~= Seq::empty());
    }
    match get_response(bookmarks_url(uid.as_str(), 0), true, &cookie) {
        Err(e) => (
            BookmarkCrawl {
                phase: BookmarkPhase::Failed(e),
                uid,
                cookie: String::new(),
                offset: 0,
                pages: 0,
                total: 0,
                downloaded: 0,
                page,
                next: 0,
                pacing,
            },
            Action::Abort(e),
        ),
        Ok(request) => {
            let cookie = match cookie {
                Some(c) => c,
                None => String::new(),
            };
            (
                BookmarkCrawl {
                    phase: BookmarkPhase::Page,
                    uid,
                    cookie,
                    offset: 0,
                    pages: 0,
                    total: 0,
                    downloaded: 0,
                    page,
                    next: 0,
                    pacing,
                },
                Action::Fetch(request),
            )
        },
    }
}

impl BookmarkCrawl {
    #[verifier::type_invariant]
    closed spec fn well_formed(&self) -> bool {
        bookmarks_wf(self@)
    }

    /// Where the crawl stands.
    pub fn phase(&self) -> (p: BookmarkPhase)
        ensures
            p == self@.phase,
    {
        self.phase
    }

    /// Where the page that is asked for next begins.
    pub fn offset(&self) -> (n: u64)
        ensures
            n == self@.offset,
    {
        self.offset
    }

    /// The number of novels that the crawl has saved.
    pub fn downloaded(&self) -> (n: u64)
        ensures
            n == self@.downloaded,
    {
        self.downloaded
    }

    /// The number of the user's bookmarks, as the last page gave it.
    pub fn total(&self) -> (n: u64)
        ensures
            n == self@.total,
    {
        self.total
    }

    /// The bookmarks of the page at hand.
    pub fn page(&self) -> (page: &Vec<Bookmark>)
        ensures
            bookmarks_seen(page@) == self@.page,
    {
        &self.page
    }

    /// Whether the two counters have room to grow: what `step` asks for.
    pub fn has_room(&self) -> (room: bool)
        ensures
            room == (self@.offset + page_size() <= u64::MAX && self@.downloaded + 1 <= u64::MAX),
    {
        self.offset <= u64::MAX - 24 && self.downloaded < u64::MAX
    }

    /// The crawl stopped by the failure `e`.
    fn fail(self, e: CrawlError) -> (next: (BookmarkCrawl, Action))
        ensures
            bookmarks_fail(self@, next.0@, next.1@, e),
            bookmarks_wf(next.0@),
    {
        proof {
            use_type_invariant(&self);
        }
        (
            BookmarkCrawl {
                phase: BookmarkPhase::Failed(e),
                uid: self.uid,
                cookie: self.cookie,
                offset: self.offset,
                pages: self.pages,
                total: self.total,
                downloaded: self.downloaded,
                page: self.page,
                next: self.next,
                pacing: self.pacing,
            },
            Action::Abort(e),
        )
    }

    /// The crawl in another phase.
    fn turn(self, phase: BookmarkPhase) -> (next: BookmarkCrawl)
        requires
            bookmarks_wf(BookmarkCrawlView { phase, ..self@ }),
        ensures
            next@ == (BookmarkCrawlView { phase, ..self@ }),
    {
        BookmarkCrawl {
            phase,
            uid: self.uid,
            cookie: self.cookie,
            offset: self.offset,
            pages: self.pages,
            total: self.total,
            downloaded: self.downloaded,
            page: self.page,
            next: self.next,
            pacing: self.pacing,
        }
    }

    /// Goes on before the place `from` of the page.
    fn move_on(self, from: usize) -> (next: (BookmarkCrawl, Action))
        requires
            from <= self@.page.len(),
            self@.offset + page_size() <= u64::MAX,
        ensures
            bookmarks_move_on(
                BookmarkCrawlView { next: from as int, ..self@ },
                next.0@,
                next.1@,
            ),
            bookmarks_wf(next.0@),
    {
        proof {
            use_type_invariant(&self);
        }
        let mut n: usize = from;
        while n < self.page.len()
            invariant
                from <= n <= self.page.len(),
                next_work(bookmarks_seen(self.page@), n as int) == next_work(
                    bookmarks_seen(self.page@),
                    from as int,
                ),
                bookmarks_wf(self@),
                self@.offset + page_size() <= u64::MAX,
            decreases self.page.len() - n,
        {
            match &self.page[n] {
                Bookmark::Work { id, title, author } => {
                    let name = file_name(title.as_str(), author.as_str());
                    assert(bookmarks_seen(self.page@)[n as int] == self.page@[n as int]@);
                    return (
                        BookmarkCrawl {
                            phase: BookmarkPhase::Probe,
                            uid: self.uid,
                            cookie: self.cookie,
                            offset: self.offset,
                            pages: self.pages,
                            total: self.total,
                            downloaded: self.downloaded,
                            page: self.page,
                            next: n,
                            pacing: self.pacing,
                        },
                        Action::Probe(name),
                    );
                },
                Bookmark::Masked { .. } => {
                    assert(bookmarks_seen(self.page@)[n as int] == self.page@[n as int]@);
                },
            }
            n += 1;
        }
        let done = self.downloaded == self.total;
        let seconds = self.pacing.bookmark_page;
        let closed = BookmarkCrawl {
            phase: if done {
                BookmarkPhase::Done
            } else {
                BookmarkPhase::PageRest
            },
            uid: self.uid,
            cookie: self.cookie,
            offset: self.offset + 24,
            pages: self.pages + 1,
            total: self.total,
            downloaded: self.downloaded,
            page: self.page,
            next: n,
            pacing: self.pacing,
        };
        if done {
            (closed, Action::Finish)
        } else {
            (closed, Action::Pause(seconds))
        }
    }

    /// Takes the reply to the last action and gives the next one. The two
    /// counters must have room to grow.
    pub fn step(self, reply: Reply) -> (next: (BookmarkCrawl, Action))
        requires
            self@.offset + page_size() <= u64::MAX,
            self@.downloaded + 1 <= u64::MAX,
        ensures
            bookmarks_step(self@, reply@, next.0@, next.1@),
            bookmarks_wf(next.0@),
    {
        proof {
            use_type_invariant(&self);
        }
        match self.phase {
            BookmarkPhase::Page => match reply {
                Reply::Body(text) => match bookmark_page(text.as_str()) {
                    Err(e) => self.fail(CrawlError::Parse(e)),
                    Ok(page) => {
                        let turned = BookmarkCrawl {
                            phase: BookmarkPhase::Page,
                            uid: self.uid,
                            cookie: self.cookie,
                            offset: self.offset,
                            pages: self.pages,
                            total: page.total,
                            downloaded: self.downloaded,
                            page: page.works,
                            next: 0,
                            pacing: self.pacing,
                        };
                        turned.move_on(0)
                    },
                },
                _ => self.fail(CrawlError::Network),
            },
            BookmarkPhase::Probe => match reply {
                Reply::Found(found) => {
                    assert(self.next < self.page.len());
                    assert(bookmarks_seen(self.page@)[self.next as int] == self.page@[self.next as int]@);
                    if found {
                        let from: usize = self.next + 1;
                        self.move_on(from)
                    } else {
                        let request = match &self.page[self.next] {
                            Bookmark::Work { id, title, author } => plain(novel_url(id.as_str())),
                            Bookmark::Masked { .. } => unreached(),
                        };
                        (self.turn(BookmarkPhase::Item), Action::Fetch(request))
                    }
                },
                _ => self.fail(CrawlError::File),
            },
            BookmarkPhase::Item => match reply {
                Reply::Body(text) => {
                    assert(self.next < self.page.len());
                    assert(bookmarks_seen(self.page@)[self.next as int] == self.page@[self.next as int]@);
                    let pid = match &self.page[self.next] {
                        Bookmark::Work { id, title, author } => id.clone(),
                        Bookmark::Masked { .. } => unreached(),
                    };
                    match get_novel_content(pid, text.as_str()) {
                        Err(e) => self.fail(CrawlError::Parse(e)),
                        Ok(novel) => {
                            let write = novel.save();
                            (self.turn(BookmarkPhase::Saving), Action::Write(write))
                        },
                    }
                },
                _ => self.fail(CrawlError::Network),
            },
            BookmarkPhase::Saving => match reply {
                Reply::Written => {
                    let seconds = self.pacing.bookmark_item;
                    (
                        BookmarkCrawl {
                            phase: BookmarkPhase::ItemRest,
                            uid: self.uid,
                            cookie: self.cookie,
                            offset: self.offset,
                            pages: self.pages,
                            total: self.total,
                            downloaded: self.downloaded + 1,
                            page: self.page,
                            next: self.next,
                            pacing: self.pacing,
                        },
                        Action::Pause(seconds),
                    )
                },
                _ => self.fail(CrawlError::File),
            },
            BookmarkPhase::ItemRest => {
                assert(self.next < self.page.len());
                let from: usize = self.next + 1;
                self.move_on(from)
            },
            BookmarkPhase::PageRest => {
                let mut request = plain(bookmarks_url(self.uid.as_str(), self.offset));
                request.cookie = Some(self.cookie.clone());
                (self.turn(BookmarkPhase::Page), Action::Fetch(request))
            },
            BookmarkPhase::Done => (self, Action::Finish),
            BookmarkPhase::Failed(e) => (self, Action::Abort(e)),
        }
    }
}

/// Every step leaves the crawl well formed: the offset is always the size
/// of a page times the number of pages that were closed.
pub proof fn bookmarks_stay_well_formed(
    pre: BookmarkCrawlView,
    reply: ReplyView,
    post: BookmarkCrawlView,
    action: ActionView,
)
    requires
        bookmarks_wf(pre),
        bookmarks_step(pre, reply, post, action),
    ensures
        bookmarks_wf(post),
{
    lemma_next_work(pre.page, pre.next + 1);
    if pre.phase == BookmarkPhase::Page {
        if let ReplyView::Body(text) = reply {
            if let Ok(page) = bookmark_page_answer(text) {
                lemma_next_work(page.works, 0);
            }
        }
    }
}

/// `next_work` finds a work that is not masked, and passes over masked ones
/// only.
pub proof fn lemma_next_work(page: Seq<BookmarkView>, from: int)
    requires
        0 <= from,
    ensures
        from <= next_work(page, from) || next_work(page, from) == page.len(),
        next_work(page, from) <= page.len(),
        next_work(page, from) < page.len() ==> page[next_work(page, from)] is Work,
        forall|k: int| from <= k < next_work(page, from) ==> #[trigger] page[k] is Masked,
    decreases page.len() - from,
{
    if from < page.len() && !(page[from] is Work) {
        lemma_next_work(page, from + 1);
    }
}

/// With each step the offset stays, or a page is closed and it grows by
/// exactly the size of a page.
pub proof fn offset_grows_by_pages(
    pre: BookmarkCrawlView,
    reply: ReplyView,
    post: BookmarkCrawlView,
    action: ActionView,
)
    requires
        bookmarks_wf(pre),
        bookmarks_step(pre, reply, post, action),
    ensures
        post.pages == pre.pages && post.offset == pre.offset || post.pages == pre.pages + 1
            && post.offset == pre.offset + page_size(),
        post.offset == page_size() * post.pages,
{
    bookmarks_stay_well_formed(pre, reply, post, action);
}

/// A masked work is never looked for, fetched or saved: whatever a step
/// asks for a single work, it asks for the bookmark at hand, and that one
/// is not masked. Any other request is for a page of bookmarks.
pub proof fn masked_works_are_passed_over(
    pre: BookmarkCrawlView,
    reply: ReplyView,
    post: BookmarkCrawlView,
    action: ActionView,
)
    requires
        bookmarks_wf(pre),
        bookmarks_step(pre, reply, post, action),
        !(pre.phase is Done),
        !(pre.phase is Failed),
    ensures
        action is Probe || action is Write || (action matches ActionView::Fetch(r) && r
            != page_request(post)) ==> 0 <= post.next < post.page.len() && post.page[post.next] is Work,
        action matches ActionView::Fetch(r) ==> r == page_request(post) || r == plain_request(
            novel_address(id_at_hand(post)),
        ),
        forall|k: int|
            pre.next < k < post.next && post.page == pre.page ==> #[trigger] post.page[k] is Masked,
{
    bookmarks_stay_well_formed(pre, reply, post, action);
    lemma_next_work(pre.page, pre.next + 1);
    lemma_next_work(post.page, 0);
}

/// A crawl begins well formed, with no page closed, and its first request
/// asks for the page at offset 0.
pub proof fn first_page_begins_at_zero(
    uid: Seq<char>,
    cookie: Option<Seq<char>>,
    pacing: Pacing,
    post: BookmarkCrawlView,
    action: ActionView,
)
    requires
        bookmarks_start(uid, cookie, pacing, post, action),
    ensures
        bookmarks_wf(post),
        post.pages == 0,
        post.offset == 0,
        cookie matches Some(c) ==> action == ActionView::Fetch(
            RequestView { url: bookmarks_address(uid, 0), user_agent: browser(), cookie: Some(c) },
        ),
        cookie is None ==> action == ActionView::Abort(CrawlError::Config),
{
}

/// Every request for a page of bookmarks carries the cookie and asks for
/// the page at the offset, which is the size of a page times the number of
/// pages that were closed. Every other request carries no cookie and is for
/// the novel of the bookmark at hand.
pub proof fn page_requests_carry_the_offset(
    pre: BookmarkCrawlView,
    reply: ReplyView,
    post: BookmarkCrawlView,
    action: ActionView,
)
    requires
        bookmarks_wf(pre),
        bookmarks_step(pre, reply, post, action),
    ensures
        action matches ActionView::Fetch(r) ==> if r.cookie is Some {
            post.phase == BookmarkPhase::Page && r.url == bookmarks_address(
                post.uid,
                page_size() * post.pages,
            )
        } else {
            post.phase == BookmarkPhase::Item && r.url == novel_address(id_at_hand(post))
        },
{
}

/// A write is asked for only when the novel of the bookmark at hand has
/// come, and that bookmark is not masked. The write is exclusive, and its
/// text opens with the id of that work: a masked work adds nothing to the
/// files.
pub proof fn writes_save_the_work_at_hand(
    pre: BookmarkCrawlView,
    reply: ReplyView,
    post: BookmarkCrawlView,
    action: ActionView,
)
    requires
        bookmarks_wf(pre),
        bookmarks_step(pre, reply, post, action),
    ensures
        action matches ActionView::Write(w) ==> pre.phase == BookmarkPhase::Item
            && pre.page[pre.next] is Work && w.exclusive && ("pid:"@ + id_at_hand(
            pre,
        )).is_prefix_of(w.text),
{
    if let ActionView::Write(w) = action {
        let opening = "pid:"@ + id_at_hand(pre);
        assert(w.text.subrange(0, opening.len() as int) =~= opening);
    }
}

} // verus!
