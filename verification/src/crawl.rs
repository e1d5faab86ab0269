//! What a crawl asks of the world and what it is told: the requests, the
//! actions and the replies that the three crawls share, and the crawl for a
//! single novel.
//!
//! A crawl never touches the network or the disk. It hands out an
//! [`Action`]; the caller performs it and hands back a [`Reply`]. A reply
//! that does not answer the action counts as the failure of that action:
//! of a request as a failure of the network, of a probe or a write as a
//! failure of the file system. A rest cannot fail: whatever is said of it,
//! the crawl goes on. A crawl that is complete or has failed stays so and
//! repeats its last word.

use crate::answer::{get_novel_content, novel_answer};
use crate::error::{CrawlError, ParseError};
use crate::pixiv::{saves, FileWrite, FileWriteView};
use crate::reference::{follows_last, novel_address, novel_id, novel_url};
use crate::trusted::text_of;
use vstd::prelude::*;
use vstd::string::StringExecFns;

verus! {

/// How long a crawl rests, in seconds.
#[derive(Clone, Copy, Debug, PartialEq, Eq, Structural)]
pub struct Pacing {
    /// After each novel of a series.
    pub series_item: u64,
    /// After each bookmarked novel.
    pub bookmark_item: u64,
    /// After each page of bookmarks.
    pub bookmark_page: u64,
}

impl Pacing {
    /// The rests that keep the platform from closing its doors: 2, 3 and 5
    /// seconds.
    pub fn standard() -> (p: Pacing)
        ensures
            p == (Pacing { series_item: 2, bookmark_item: 3, bookmark_page: 5 }),
    {
        Pacing { series_item: 2, bookmark_item: 3, bookmark_page: 5 }
    }

    /// No rest at all.
    pub fn none() -> (p: Pacing)
        ensures
            p == (Pacing { series_item: 0, bookmark_item: 0, bookmark_page: 0 }),
    {
        Pacing { series_item: 0, bookmark_item: 0, bookmark_page: 0 }
    }
}

/// One GET request.
#[derive(Clone, Debug, PartialEq, Eq)]
pub struct Request {
    pub url: String,
    /// The browser that the request claims to come from.
    pub user_agent: String,
    /// The session cookie, where the address asks for one.
    pub cookie: Option<String>,
}

/// What a `Request` holds.
pub struct RequestView {
    pub url: Seq<char>,
    pub user_agent: Seq<char>,
    pub cookie: Option<Seq<char>>,
}

impl View for Request {
    type V = RequestView;

    open spec fn view(&self) -> RequestView {
        RequestView { url: self.url@, user_agent: self.user_agent@, cookie: text_of(self.cookie) }
    }
}

/// The browser that every request names.
pub open spec fn browser() -> Seq<char> {
    "Mozilla/5.0 (X11; Linux x86_64) AppleWebKit/537.36 (KHTML, like Gecko) Chrome/101.0.4951.41 Safari/537.36"@
}

/// The request for `url` that carries no cookie.
pub open spec fn plain_request(url: Seq<char>) -> RequestView {
    RequestView { url, user_agent: browser(), cookie: None }
}

/// The request for `url`; it carries `cookie` where `with_cookie` is set.
/// Without a cookie to carry there is no such request.
pub open spec fn request_of(url: Seq<char>, with_cookie: bool, cookie: Option<Seq<char>>) -> Result<
    RequestView,
    CrawlError,
> {
    if !with_cookie {
        Ok(plain_request(url))
    } else if cookie is None {
        Err(CrawlError::Config)
    } else {
        Ok(RequestView { url, user_agent: browser(), cookie })
    }
}

/// The browser that every request names.
pub fn browser_name() -> (name: String)
    ensures
        name@ == browser(),
{
    String::from_str(
        "Mozilla/5.0 (X11; Linux x86_64) AppleWebKit/537.36 (KHTML, like Gecko) Chrome/101.0.4951.41 Safari/537.36",
    )
}

/// The request for `url` that carries no cookie.
pub fn plain(url: String) -> (r: Request)
    ensures
        r@ == plain_request(url@),
{
    Request { url, user_agent: browser_name(), cookie: None }
}

/// The request that retrieves `url`. Where the address needs the session
/// cookie and none is at hand, the crawl fails before anything is sent.
pub fn get_response(url: String, with_cookie: bool, cookie: &Option<String>) -> (r: Result<
    Request,
    CrawlError,
>)
    ensures
        match r {
            Ok(req) => request_of(url@, with_cookie, text_of(*cookie)) == Ok::<
                RequestView,
                CrawlError,
            >(req@),
            Err(e) => request_of(url@, with_cookie, text_of(*cookie)) == Err::<
                RequestView,
                CrawlError,
            >(e),
        },
{
    if !with_cookie {
        Ok(plain(url))
    } else {
        match cookie {
            None => Err(CrawlError::Config),
            Some(c) => Ok(Request { url, user_agent: browser_name(), cookie: Some(c.clone()) }),
        }
    }
}

/// What a crawl asks its caller to do next.
#[derive(Clone, Debug, PartialEq, Eq)]
pub enum Action {
    /// Send the request; reply with the body of the answer.
    Fetch(Request),
    /// Look whether a file of this name exists; reply with what was found.
    Probe(String),
    /// Write to the file; reply when it is written.
    Write(FileWrite),
    /// Rest for so many seconds; reply when they are over.
    Pause(u64),
    /// The crawl is complete.
    Finish,
    /// The crawl has failed.
    Abort(CrawlError),
}

/// What an `Action` holds.
pub enum ActionView {
    Fetch(RequestView),
    Probe(Seq<char>),
    Write(FileWriteView),
    Pause(u64),
    Finish,
    Abort(CrawlError),
}

impl View for Action {
    type V = ActionView;

    open spec fn view(&self) -> ActionView {
        match *self {
            Action::Fetch(r) => ActionView::Fetch(r@),
            Action::Probe(name) => ActionView::Probe(name@),
            Action::Write(w) => ActionView::Write(w@),
            Action::Pause(seconds) => ActionView::Pause(seconds),
            Action::Finish => ActionView::Finish,
            Action::Abort(e) => ActionView::Abort(e),
        }
    }
}

/// What the caller tells a crawl of the action it performed.
#[derive(Clone, Debug, PartialEq, Eq)]
pub enum Reply {
    /// The body of the answer to a request.
    Body(String),
    /// Whether the file exists.
    Found(bool),
    /// The file is written.
    Written,
    /// The rest is over.
    Resumed,
    /// The action could not be performed.
    Failed,
}

/// What a `Reply` holds.
pub enum ReplyView {
    Body(Seq<char>),
    Found(bool),
    Written,
    Resumed,
    Failed,
}

impl View for Reply {
    type V = ReplyView;

    open spec fn view(&self) -> ReplyView {
        match *self {
            Reply::Body(text) => ReplyView::Body(text@),
            Reply::Found(found) => ReplyView::Found(found),
            Reply::Written => ReplyView::Written,
            Reply::Resumed => ReplyView::Resumed,
            Reply::Failed => ReplyView::Failed,
        }
    }
}

/// The crawl for a single novel: fetch it, then save it.
#[derive(Clone, Debug, PartialEq, Eq)]
pub enum SingleCrawl {
    /// The novel with this id was asked for.
    Fetching { pid: String },
    /// The novel's file is being written.
    Saving,
    Done,
    Failed(CrawlError),
}

/// What a `SingleCrawl` holds.
pub enum SingleCrawlView {
    Fetching { pid: Seq<char> },
    Saving,
    Done,
    Failed(CrawlError),
}

impl View for SingleCrawl {
    type V = SingleCrawlView;

    open spec fn view(&self) -> SingleCrawlView {
        match *self {
            SingleCrawl::Fetching { pid } => SingleCrawlView::Fetching { pid: pid@ },
            SingleCrawl::Saving => SingleCrawlView::Saving,
            SingleCrawl::Done => SingleCrawlView::Done,
            SingleCrawl::Failed(e) => SingleCrawlView::Failed(e),
        }
    }
}

/// The crawl stops with the failure `e`.
pub open spec fn single_fails(post: SingleCrawlView, action: ActionView, e: CrawlError) -> bool {
    post == SingleCrawlView::Failed(e) && action == ActionView::Abort(e)
}

/// How the crawl for the novel that `url` shows begins: with the request
/// for the novel whose id follows the last `=` of `url`.
pub open spec fn single_starts(url: Seq<char>, post: SingleCrawlView, action: ActionView) -> bool {
    if url.contains('=') {
        exists|pid: Seq<char>|
            #![trigger novel_address(pid)]
            follows_last(url, '=', pid) && post == (SingleCrawlView::Fetching { pid }) && action
                == ActionView::Fetch(plain_request(novel_address(pid)))
    } else {
        single_fails(post, action, CrawlError::Parse(ParseError::Reference))
    }
}

/// One step of the crawl for a single novel: from `pre`, told `reply`, it
/// goes to `post` and asks for `action`.
pub open spec fn single_step(
    pre: SingleCrawlView,
    reply: ReplyView,
    post: SingleCrawlView,
    action: ActionView,
) -> bool {
    match pre {
        SingleCrawlView::Fetching { pid } => match reply {
            ReplyView::Body(text) => match novel_answer(text, pid) {
                Ok(novel) => post == SingleCrawlView::Saving && (action matches ActionView::Write(w)
                    && saves(w, novel)),
                Err(e) => single_fails(post, action, CrawlError::Parse(e)),
            },
            _ => single_fails(post, action, CrawlError::Network),
        },
        SingleCrawlView::Saving => match reply {
            ReplyView::Written => post == SingleCrawlView::Done && action == ActionView::Finish,
            _ => single_fails(post, action, CrawlError::File),
        },
        SingleCrawlView::Done => post == pre && action == ActionView::Finish,
        SingleCrawlView::Failed(e) => post == pre && action == ActionView::Abort(e),
    }
}

/// Begins the crawl for the single novel that `url` shows.
pub fn download_single(url: &str) -> (begun: (SingleCrawl, Action))
    ensures
        single_starts(url@, begun.0@, begun.1@),
{
    match novel_id(url) {
        Err(e) => (SingleCrawl::Failed(CrawlError::Parse(e)), Action::Abort(CrawlError::Parse(e))),
        Ok(pid) => {
            let request = plain(novel_url(pid.as_str()));
            (SingleCrawl::Fetching { pid }, Action::Fetch(request))
        },
    }
}

impl SingleCrawl {
    /// Takes the reply to the last action and gives the next one.
    pub fn step(self, reply: Reply) -> (next: (SingleCrawl, Action))
        ensures
            single_step(self@, reply@, next.0@, next.1@),
    {
        match self {
            SingleCrawl::Fetching { pid } => match reply {
                Reply::Body(text) => match get_novel_content(pid, text.as_str()) {
                    Ok(novel) => (SingleCrawl::Saving, Action::Write(novel.save())),
                    Err(e) => (
                        SingleCrawl::Failed(CrawlError::Parse(e)),
                        Action::Abort(CrawlError::Parse(e)),
                    ),
                },
                _ => (SingleCrawl::Failed(CrawlError::Network), Action::Abort(CrawlError::Network)),
            },
            SingleCrawl::Saving => match reply {
                Reply::Written => (SingleCrawl::Done, Action::Finish),
                _ => (SingleCrawl::Failed(CrawlError::File), Action::Abort(CrawlError::File)),
            },
            SingleCrawl::Done => (SingleCrawl::Done, Action::Finish),
            SingleCrawl::Failed(e) => (SingleCrawl::Failed(e), Action::Abort(e)),
        }
    }
}

} // verus!
