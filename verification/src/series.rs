//! The crawl for a series: its novels are fetched page by page, in rising
//! order, and gathered in one file.

use crate::answer::{
    get_novel_content, novel_answer, refs_seen, series_info, series_info_answer, series_page,
    series_page_answer, SeriesItemRef, SeriesItemRefView,
};
use crate::crawl::{plain, plain_request, Action, ActionView, Pacing, Reply, ReplyView};
use crate::error::{CrawlError, ParseError};
use crate::pixiv::{chapter, fit_for_names, names_work, series_header, FileWriteView, Series};
use crate::reference::{
    follows_last, novel_address, novel_url, series_address, series_id, series_page_address,
    series_page_url, series_url,
};
use vstd::prelude::*;

verus! {

/// Where a series crawl stands: what it has asked for last.
#[derive(Clone, Copy, Debug, PartialEq, Eq, Structural)]
pub enum SeriesPhase {
    /// The description of the series.
    Meta,
    /// The write of the header of the series' file.
    Header,
    /// A page of works.
    Page,
    /// The novel that is next on the page.
    Item,
    /// The write of that novel to the series' file.
    Chapter,
    /// The rest after that novel.
    Rest,
    Done,
    Failed(CrawlError),
}

/// The crawl for a series.
#[derive(Debug)]
pub struct SeriesCrawl {
    phase: SeriesPhase,
    sid: String,
    title: String,
    file: String,
    total: u64,
    last_order: u64,
    asked: u64,
    page: Vec<SeriesItemRef>,
    next: usize,
    pacing: Pacing,
}

/// What a `SeriesCrawl` holds.
pub struct SeriesCrawlView {
    pub phase: SeriesPhase,
    /// The id of the series.
    pub sid: Seq<char>,
    /// The title of the series, once the series is known.
    pub title: Seq<char>,
    /// The name of the series' file, once the series is known.
    pub file: Seq<char>,
    /// The number of works in the series.
    pub total: u64,
    /// The cursor: the order of the work that was gathered last.
    pub last_order: u64,
    /// The cursor as it stood when the page at hand was asked for.
    pub asked: u64,
    /// The works of the page at hand.
    pub page: Seq<SeriesItemRefView>,
    /// The place on the page of the work that is gathered next.
    pub next: int,
    pub pacing: Pacing,
}

/// While a work is being gathered, it is on the page.
pub open spec fn series_wf(s: SeriesCrawlView) -> bool {
    &&& 0 <= s.next <= s.page.len()
    &&& (s.phase == SeriesPhase::Item || s.phase == SeriesPhase::Chapter || s.phase
        == SeriesPhase::Rest) ==> s.next < s.page.len()
}

/// The crawl stops with the failure `e`.
pub open spec fn series_fails(
    pre: SeriesCrawlView,
    post: SeriesCrawlView,
    action: ActionView,
    e: CrawlError,
) -> bool {
    post == (SeriesCrawlView { phase: SeriesPhase::Failed(e), ..pre }) && action
        == ActionView::Abort(e)
}

/// What the crawl `s` does before the place `s.next` of its page. A work
/// that stands there is fetched. At the end of the page the crawl is
/// complete if the cursor is at the total. If it is not, the page must have
/// raised the cursor: where the cursor is not beyond the place where it
/// stood when the page was asked for, as after every empty page, the crawl
/// has stalled. Else the next page is asked for.
pub open spec fn series_moves_on(s: SeriesCrawlView, post: SeriesCrawlView, action: ActionView) -> bool {
    if s.next < s.page.len() {
        post == (SeriesCrawlView { phase: SeriesPhase::Item, ..s }) && action == ActionView::Fetch(
            plain_request(novel_address(s.page[s.next].id)),
        )
    } else if s.last_order == s.total {
        post == (SeriesCrawlView { phase: SeriesPhase::Done, ..s }) && action == ActionView::Finish
    } else if s.last_order <= s.asked {
        series_fails(s, post, action, CrawlError::ProgressStalled)
    } else {
        post == (SeriesCrawlView { phase: SeriesPhase::Page, ..s }) && action == ActionView::Fetch(
            plain_request(series_page_address(s.sid, s.last_order as nat)),
        )
    }
}

/// How the crawl for the series that `url` shows begins: with the request
/// for the description of the series whose id follows the last `/`.
pub open spec fn series_starts(
    url: Seq<char>,
    pacing: Pacing,
    post: SeriesCrawlView,
    action: ActionView,
) -> bool {
    let blank = SeriesCrawlView {
        phase: SeriesPhase::Meta,
        sid: Seq::empty(),
        title: Seq::empty(),
        file: Seq::empty(),
        total: 0,
        last_order: 0,
        asked: 0,
        page: Seq::empty(),
        next: 0,
        pacing,
    };
    if url.contains('/') {
        exists|sid: Seq<char>|
            #![trigger series_address(sid)]
            follows_last(url, '/', sid) && post == (SeriesCrawlView { sid, ..blank }) && action
                == ActionView::Fetch(plain_request(series_address(sid)))
    } else {
        series_fails(blank, post, action, CrawlError::Parse(ParseError::Reference))
    }
}

/// One step of the crawl for a series: from `pre`, told `reply`, it goes to
/// `post` and asks for `action`.
pub open spec fn series_step(
    pre: SeriesCrawlView,
    reply: ReplyView,
    post: SeriesCrawlView,
    action: ActionView,
) -> bool {
    match pre.phase {
        SeriesPhase::Meta => match reply {
            ReplyView::Body(text) => match series_info_answer(text) {
                Ok(info) => {
                    &&& post == (SeriesCrawlView {
                        phase: SeriesPhase::Header,
                        title: info.title,
                        file: post.file,
                        total: info.total,
                        ..pre
                    })
                    &&& names_work(post.file, info.title, info.author)
                    &&& fit_for_names(post.file)
                    &&& action == ActionView::Write(
                        FileWriteView {
                            name: post.file,
                            text: series_header(pre.sid, info.title, info.author, info.uid),
                            exclusive: false,
                        },
                    )
                },
                Err(e) => series_fails(pre, post, action, CrawlError::Parse(e)),
            },
            _ => series_fails(pre, post, action, CrawlError::Network),
        },
        SeriesPhase::Header => match reply {
            ReplyView::Written => post == (SeriesCrawlView { phase: SeriesPhase::Page, ..pre })
                && action == ActionView::Fetch(
                plain_request(series_page_address(pre.sid, pre.last_order as nat)),
            ),
            _ => series_fails(pre, post, action, CrawlError::File),
        },
        SeriesPhase::Page => match reply {
            ReplyView::Body(text) => match series_page_answer(text) {
                Ok(page) => series_moves_on(
                    SeriesCrawlView { page, next: 0, asked: pre.last_order, ..pre },
                    post,
                    action,
                ),
                Err(e) => series_fails(pre, post, action, CrawlError::Parse(e)),
            },
            _ => series_fails(pre, post, action, CrawlError::Network),
        },
        SeriesPhase::Item => match reply {
            ReplyView::Body(text) => match novel_answer(text, pre.page[pre.next].id) {
                Ok(novel) => post == (SeriesCrawlView { phase: SeriesPhase::Chapter, ..pre })
                    && action == ActionView::Write(
                    FileWriteView {
                        name: pre.file,
                        text: chapter(novel.title, novel.content),
                        exclusive: false,
                    },
                ),
                Err(e) => series_fails(pre, post, action, CrawlError::Parse(e)),
            },
            _ => series_fails(pre, post, action, CrawlError::Network),
        },
        SeriesPhase::Chapter => match reply {
            ReplyView::Written => post == (SeriesCrawlView { phase: SeriesPhase::Rest, ..pre })
                && action == ActionView::Pause(pre.pacing.series_item),
            _ => series_fails(pre, post, action, CrawlError::File),
        },
        SeriesPhase::Rest => series_moves_on(
            SeriesCrawlView {
                last_order: pre.page[pre.next].content_order,
                next: pre.next + 1,
                ..pre
            },
            post,
            action,
        ),
        SeriesPhase::Done => post == pre && action == ActionView::Finish,
        SeriesPhase::Failed(e) => post == pre && action == ActionView::Abort(e),
    }
}

impl View for SeriesCrawl {
    type V = SeriesCrawlView;

    closed spec fn view(&self) -> SeriesCrawlView {
        SeriesCrawlView {
            phase: self.phase,
            sid: self.sid@,
            title: self.title@,
            file: self.file@,
            total: self.total,
            last_order: self.last_order,
            asked: self.asked,
            page: refs_seen(self.page@),
            next: self.next as int,
            pacing: self.pacing,
        }
    }
}

/// Begins the crawl for the series that `url` shows.
pub fn download_series(url: &str, pacing: Pacing) -> (begun: (SeriesCrawl, Action))
    ensures
        series_starts(url@, pacing, begun.0@, begun.1@),
        series_wf(begun.0@),
{
    let page: Vec<SeriesItemRef> = Vec::new();
    proof {
        assert(refs_seen(page@) =~= Seq::empty());
    }
    match series_id(url) {
        Err(e) => (
            SeriesCrawl {
                phase: SeriesPhase::Failed(CrawlError::Parse(e)),
                sid: String::new(),
                title: String::new(),
                file: String::new(),
                total: 0,
                last_order: 0,
                asked: 0,
                page,
                next: 0,
                pacing,
            },
            Action::Abort(CrawlError::Parse(e)),
        ),
        Ok(sid) => {
            let request = plain(series_url(sid.as_str()));
            (
                SeriesCrawl {
                    phase: SeriesPhase::Meta,
                    sid,
                    title: String::new(),
                    file: String::new(),
                    total: 0,
                    last_order: 0,
                    asked: 0,
                    page,
                    next: 0,
                    pacing,
                },
                Action::Fetch(request),
            )
        },
    }
}

impl SeriesCrawl {
    #[verifier::type_invariant]
    closed spec fn well_formed(&self) -> bool {
        series_wf(self@)
    }

    /// Where the crawl stands.
    pub fn phase(&self) -> (p: SeriesPhase)
        ensures
            p == self@.phase,
    {
        self.phase
    }

    /// The cursor: the order of the work that was gathered last.
    pub fn last_order(&self) -> (n: u64)
        ensures
            n == self@.last_order,
    {
        self.last_order
    }

    /// The title of the series; empty until the series is known.
    pub fn title(&self) -> (t: &String)
        ensures
            t@ == self@.title,
    {
        &self.title
    }

    /// The number of works in the series.
    pub fn total(&self) -> (n: u64)
        ensures
            n == self@.total,
    {
        self.total
    }

    /// The crawl stopped by the failure `e`.
    fn fail(self, e: CrawlError) -> (next: (SeriesCrawl, Action))
        ensures
            series_fails(self@, next.0@, next.1@, e),
            series_wf(next.0@),
    {
        proof {
            use_type_invariant(&self);
        }
        (
            SeriesCrawl {
                phase: SeriesPhase::Failed(e),
                sid: self.sid,
                title: self.title,
                file: self.file,
                total: self.total,
                last_order: self.last_order,
                asked: self.asked,
                page: self.page,
                next: self.next,
                pacing: self.pacing,
            },
            Action::Abort(e),
        )
    }

    /// The crawl in another phase.
    fn turn(self, phase: SeriesPhase) -> (next: SeriesCrawl)
        requires
            series_wf(SeriesCrawlView { phase, ..self@ }),
        ensures
            next@ == (SeriesCrawlView { phase, ..self@ }),
    {
        SeriesCrawl {
            phase,
            sid: self.sid,
            title: self.title,
            file: self.file,
            total: self.total,
            last_order: self.last_order,
            asked: self.asked,
            page: self.page,
            next: self.next,
            pacing: self.pacing,
        }
    }

    /// Goes on before the place `next` of the page.
    fn move_on(self) -> (next: (SeriesCrawl, Action))
        ensures
            series_moves_on(self@, next.0@, next.1@),
            series_wf(next.0@),
    {
        proof {
            use_type_invariant(&self);
        }
        if self.next < self.page.len() {
            let request = plain(novel_url(self.page[self.next].id.as_str()));
            (self.turn(SeriesPhase::Item), Action::Fetch(request))
        } else if self.last_order == self.total {
            (self.turn(SeriesPhase::Done), Action::Finish)
        } else if self.last_order <= self.asked {
            self.fail(CrawlError::ProgressStalled)
        } else {
            let request = plain(series_page_url(self.sid.as_str(), self.last_order));
            (self.turn(SeriesPhase::Page), Action::Fetch(request))
        }
    }

    /// Takes the reply to the last action and gives the next one.
    pub fn step(self, reply: Reply) -> (next: (SeriesCrawl, Action))
        ensures
            series_step(self@, reply@, next.0@, next.1@),
            series_wf(next.0@),
    {
        proof {
            use_type_invariant(&self);
        }
        match self.phase {
            SeriesPhase::Meta => match reply {
                Reply::Body(text) => match series_info(text.as_str()) {
                    Err(e) => self.fail(CrawlError::Parse(e)),
                    Ok(info) => {
                        let title = info.title.clone();
                        let (series, header) = Series::new(
                            info.title,
                            info.author,
                            self.sid.clone(),
                            info.uid,
                        );
                        (
                            SeriesCrawl {
                                phase: SeriesPhase::Header,
                                sid: self.sid,
                                title,
                                file: series.name,
                                total: info.total,
                                last_order: self.last_order,
                                asked: self.asked,
                                page: self.page,
                                next: self.next,
                                pacing: self.pacing,
                            },
                            Action::Write(header),
                        )
                    },
                },
                _ => self.fail(CrawlError::Network),
            },
            SeriesPhase::Header => match reply {
                Reply::Written => {
                    let request = plain(series_page_url(self.sid.as_str(), self.last_order));
                    (self.turn(SeriesPhase::Page), Action::Fetch(request))
                },
                _ => self.fail(CrawlError::File),
            },
            SeriesPhase::Page => match reply {
                Reply::Body(text) => match series_page(text.as_str()) {
                    Err(e) => self.fail(CrawlError::Parse(e)),
                    Ok(page) => {
                        let turned = SeriesCrawl {
                            phase: SeriesPhase::Page,
                            sid: self.sid,
                            title: self.title,
                            file: self.file,
                            total: self.total,
                            last_order: self.last_order,
                            asked: self.last_order,
                            page,
                            next: 0,
                            pacing: self.pacing,
                        };
                        turned.move_on()
                    },
                },
                _ => self.fail(CrawlError::Network),
            },
            SeriesPhase::Item => match reply {
                Reply::Body(text) => {
                    let pid = self.page[self.next].id.clone();
                    match get_novel_content(pid, text.as_str()) {
                        Err(e) => self.fail(CrawlError::Parse(e)),
                        Ok(novel) => {
                            let series = Series { name: self.file.clone(), pid: self.sid.clone() };
                            let write = series.append(novel);
                            (self.turn(SeriesPhase::Chapter), Action::Write(write))
                        },
                    }
                },
                _ => self.fail(CrawlError::Network),
            },
            SeriesPhase::Chapter => match reply {
                Reply::Written => {
                    let seconds = self.pacing.series_item;
                    (self.turn(SeriesPhase::Rest), Action::Pause(seconds))
                },
                _ => self.fail(CrawlError::File),
            },
            SeriesPhase::Rest => {
                assert(self.next < self.page.len());
                let order = self.page[self.next].content_order;
                let turned = SeriesCrawl {
                    phase: SeriesPhase::Page,
                    sid: self.sid,
                    title: self.title,
                    file: self.file,
                    total: self.total,
                    last_order: order,
                    asked: self.asked,
                    page: self.page,
                    next: self.next + 1,
                    pacing: self.pacing,
                };
                let moved = turned.move_on();
                proof {
                    let a = SeriesCrawlView {
                        last_order: self@.page[self@.next].content_order,
                        next: self@.next + 1,
                        ..self@
                    };
                    assert(series_moves_on(a, moved.0@, moved.1@));
                }
                moved
            },
            SeriesPhase::Done => (self, Action::Finish),
            SeriesPhase::Failed(e) => (self, Action::Abort(e)),
        }
    }
}

/// The works that are left on the page stand in rising order, and none of
/// them lies before the cursor.
pub open spec fn page_rises(s: SeriesCrawlView) -> bool {
    &&& forall|i: int|
        s.next <= i < s.page.len() ==> s.last_order <= (#[trigger] s.page[i]).content_order
    &&& forall|i: int, j: int|
        s.next <= i <= j < s.page.len() ==> (#[trigger] s.page[i]).content_order <= (
        #[trigger] s.page[j]).content_order
}

/// The step from `pre` looks behind the last work of a page: the rest after
/// the last work is over, or a page came that holds no work.
pub open spec fn closes_page(pre: SeriesCrawlView, reply: ReplyView) -> bool {
    ||| pre.phase == SeriesPhase::Rest && pre.next + 1 == pre.page.len()
    ||| pre.phase == SeriesPhase::Page && (reply matches ReplyView::Body(text)
        && series_page_answer(text) matches Ok(page) && page.len() == 0)
}

/// Every step leaves the crawl well formed.
pub proof fn series_stays_well_formed(
    pre: SeriesCrawlView,
    reply: ReplyView,
    post: SeriesCrawlView,
    action: ActionView,
)
    requires
        series_wf(pre),
        series_step(pre, reply, post, action),
    ensures
        series_wf(post),
{
}

/// The header of the series' file is written once: it is what the crawl
/// writes when the description of the series has come, and no step leads
/// back to the wait for that description. Every other write appends a novel.
pub proof fn header_is_written_once(
    pre: SeriesCrawlView,
    reply: ReplyView,
    post: SeriesCrawlView,
    action: ActionView,
)
    requires
        series_wf(pre),
        series_step(pre, reply, post, action),
    ensures
        post.phase != SeriesPhase::Meta,
        action is Write ==> pre.phase == SeriesPhase::Meta || pre.phase == SeriesPhase::Item,
        action is Write && pre.phase == SeriesPhase::Item ==> post.file == pre.file,
{
}

/// The cursor never falls, as long as the platform lists the works of a page
/// in rising order and none that lies before the cursor. On the page at
/// hand that order is then kept for the works that are left.
pub proof fn cursor_never_falls(
    pre: SeriesCrawlView,
    reply: ReplyView,
    post: SeriesCrawlView,
    action: ActionView,
)
    requires
        series_wf(pre),
        page_rises(pre),
        series_step(pre, reply, post, action),
    ensures
        pre.last_order <= post.last_order,
        pre.phase != SeriesPhase::Page ==> page_rises(post),
{
    if pre.phase == SeriesPhase::Rest {
        assert(pre.last_order <= pre.page[pre.next].content_order);
    }
}

/// A crawl is complete exactly when, at the end of a page, the cursor is at
/// the total. It has stalled exactly when, at the end of a page, the cursor
/// is not at the total and not beyond the place where it stood when the
/// page was asked for: so it is with every empty page that finds the cursor
/// short of the total. A further page is asked for only after a page that
/// brought a work and raised the cursor.
pub proof fn series_ends_at_total(
    pre: SeriesCrawlView,
    reply: ReplyView,
    post: SeriesCrawlView,
    action: ActionView,
)
    requires
        series_wf(pre),
        series_step(pre, reply, post, action),
        pre.phase != SeriesPhase::Done,
        pre.phase != SeriesPhase::Failed(CrawlError::ProgressStalled),
    ensures
        post.phase == SeriesPhase::Done <==> closes_page(pre, reply) && post.last_order
            == post.total,
        post.phase == SeriesPhase::Done <==> action == ActionView::Finish,
        post.phase == SeriesPhase::Failed(CrawlError::ProgressStalled) <==> closes_page(pre, reply)
            && post.last_order != post.total && post.last_order <= post.asked,
        closes_page(pre, reply) && post.page.len() == 0 && post.last_order < post.total
            ==> action == ActionView::Abort(CrawlError::ProgressStalled),
        post.phase == SeriesPhase::Failed(CrawlError::ProgressStalled) <==> action
            == ActionView::Abort(CrawlError::ProgressStalled),
        closes_page(pre, reply) && post.phase == SeriesPhase::Page ==> post.page.len() > 0
            && post.last_order > post.asked,
{
}

} // verus!
