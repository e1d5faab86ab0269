//! The answers of the API, read into typed records. Every field that the
//! crawl needs is looked for when an answer is read: an answer gives a whole
//! record or the first field that it lacks.

use crate::error::{Field, ParseError};
use crate::pixiv::{processed, Novel, NovelView};
use crate::text::chars_of;
use crate::trusted::{
    as_count, as_flag, as_text, digit_runs_within, digits_before, is_list, items,
    json_count, json_document, json_flag, json_is_list, json_items, json_member, json_text,
    longest_run, member, parse_json, text_of,
};
use vstd::prelude::*;

verus! {

/// What the API tells of a series as a whole.
#[derive(Clone, Debug, PartialEq, Eq)]
pub struct SeriesInfo {
    pub title: String,
    pub author: String,
    pub uid: String,
    /// The number of works in the series.
    pub total: u64,
}

/// What a `SeriesInfo` holds.
pub struct SeriesInfoView {
    pub title: Seq<char>,
    pub author: Seq<char>,
    pub uid: Seq<char>,
    pub total: u64,
}

impl View for SeriesInfo {
    type V = SeriesInfoView;

    open spec fn view(&self) -> SeriesInfoView {
        SeriesInfoView {
            title: self.title@,
            author: self.author@,
            uid: self.uid@,
            total: self.total,
        }
    }
}

/// A work of a series: its id and its place in the series.
#[derive(Clone, Debug, PartialEq, Eq)]
pub struct SeriesItemRef {
    pub id: String,
    pub content_order: u64,
}

/// What a `SeriesItemRef` holds.
pub struct SeriesItemRefView {
    pub id: Seq<char>,
    pub content_order: u64,
}

impl View for SeriesItemRef {
    type V = SeriesItemRefView;

    open spec fn view(&self) -> SeriesItemRefView {
        SeriesItemRefView { id: self.id@, content_order: self.content_order }
    }
}

/// A bookmarked work. A masked one was deleted or hidden by the platform:
/// nothing is asked of it but that fact, and its id is kept where it has
/// one.
#[derive(Clone, Debug, PartialEq, Eq)]
pub enum Bookmark {
    Masked { id: Option<String> },
    Work { id: String, title: String, author: String },
}

/// What a `Bookmark` holds.
pub enum BookmarkView {
    Masked { id: Option<Seq<char>> },
    Work { id: Seq<char>, title: Seq<char>, author: Seq<char> },
}

impl View for Bookmark {
    type V = BookmarkView;

    open spec fn view(&self) -> BookmarkView {
        match *self {
            Bookmark::Masked { id } => BookmarkView::Masked { id: text_of(id) },
            Bookmark::Work { id, title, author } => BookmarkView::Work {
                id: id@,
                title: title@,
                author: author@,
            },
        }
    }
}

/// A page of a user's bookmarks.
#[derive(Clone, Debug, PartialEq, Eq)]
pub struct BookmarkPage {
    /// The number of the user's bookmarks, as the platform counts them.
    pub total: u64,
    pub works: Vec<Bookmark>,
}

/// What a `BookmarkPage` holds.
pub struct BookmarkPageView {
    pub total: u64,
    pub works: Seq<BookmarkView>,
}

impl View for BookmarkPage {
    type V = BookmarkPageView;

    open spec fn view(&self) -> BookmarkPageView {
        BookmarkPageView { total: self.total, works: self.works@.map_values(|b: Bookmark| b@) }
    }
}

/// The novel that the four fields make, or the first of them that is absent.
pub open spec fn novel_of(
    title: Option<Seq<char>>,
    author: Option<Seq<char>>,
    content: Option<Seq<char>>,
    uid: Option<Seq<char>>,
    pid: Seq<char>,
) -> Result<NovelView, ParseError> {
    if title is None {
        Err(ParseError::Field(Field::Title))
    } else if author is None {
        Err(ParseError::Field(Field::UserName))
    } else if content is None {
        Err(ParseError::Field(Field::Content))
    } else if uid is None {
        Err(ParseError::Field(Field::UserId))
    } else {
        Ok(
            NovelView {
                content: processed(content->0),
                author: author->0,
                title: title->0,
                pid,
                uid: uid->0,
            },
        )
    }
}

/// The series that the four fields describe, or the first that is absent.
pub open spec fn series_info_of(
    title: Option<Seq<char>>,
    author: Option<Seq<char>>,
    uid: Option<Seq<char>>,
    total: Option<u64>,
) -> Result<SeriesInfoView, ParseError> {
    if title is None {
        Err(ParseError::Field(Field::Title))
    } else if author is None {
        Err(ParseError::Field(Field::UserName))
    } else if uid is None {
        Err(ParseError::Field(Field::UserId))
    } else if total is None {
        Err(ParseError::Field(Field::Total))
    } else {
        Ok(SeriesInfoView { title: title->0, author: author->0, uid: uid->0, total: total->0 })
    }
}

/// The work of a series that the two fields describe.
pub open spec fn item_ref_of(id: Option<Seq<char>>, order: Option<u64>) -> Result<
    SeriesItemRefView,
    ParseError,
> {
    if id is None {
        Err(ParseError::Field(Field::Id))
    } else if order is None {
        Err(ParseError::Field(Field::ContentOrder))
    } else {
        Ok(SeriesItemRefView { id: id->0, content_order: order->0 })
    }
}

/// The bookmark that the fields describe. Of a masked work nothing but the
/// mask is asked for; its id is kept as it came.
pub open spec fn bookmark_of(
    masked: Option<bool>,
    title: Option<Seq<char>>,
    author: Option<Seq<char>>,
    id: Option<Seq<char>>,
) -> Result<BookmarkView, ParseError> {
    if masked is None {
        Err(ParseError::Field(Field::IsMasked))
    } else if masked->0 {
        Ok(BookmarkView::Masked { id })
    } else if title is None {
        Err(ParseError::Field(Field::Title))
    } else if author is None {
        Err(ParseError::Field(Field::UserName))
    } else if id is None {
        Err(ParseError::Field(Field::Id))
    } else {
        Ok(BookmarkView::Work { id: id->0, title: title->0, author: author->0 })
    }
}

/// The document that `source` holds, if it is JSON and no more digits stand
/// in a row in it than the parser can count.
pub open spec fn document_of(source: Seq<char>) -> Option<json::JsonValue> {
    if digit_runs_within(source, longest_run()) {
        json_document(source)
    } else {
        None
    }
}

/// The text of the member `key` of `value`, if it is a string.
pub open spec fn text_in(value: json::JsonValue, key: Seq<char>) -> Option<Seq<char>> {
    json_text(json_member(value, key))
}

/// The body of an answer.
pub open spec fn body_of(doc: json::JsonValue) -> json::JsonValue {
    json_member(doc, "body"@)
}

/// What the answer `source` tells of the novel `pid`.
pub open spec fn novel_answer(source: Seq<char>, pid: Seq<char>) -> Result<NovelView, ParseError> {
    match document_of(source) {
        None => Err(ParseError::Document),
        Some(doc) => novel_of(
            text_in(body_of(doc), "title"@),
            text_in(body_of(doc), "userName"@),
            text_in(body_of(doc), "content"@),
            text_in(body_of(doc), "userId"@),
            pid,
        ),
    }
}

/// What the answer `source` tells of a series.
pub open spec fn series_info_answer(source: Seq<char>) -> Result<SeriesInfoView, ParseError> {
    match document_of(source) {
        None => Err(ParseError::Document),
        Some(doc) => series_info_of(
            text_in(body_of(doc), "title"@),
            text_in(body_of(doc), "userName"@),
            text_in(body_of(doc), "userId"@),
            json_count(json_member(body_of(doc), "total"@)),
        ),
    }
}

/// The work of a series that `value` describes.
pub open spec fn item_ref_in(value: json::JsonValue) -> Result<SeriesItemRefView, ParseError> {
    item_ref_of(
        text_in(value, "id"@),
        json_count(json_member(json_member(value, "series"@), "contentOrder"@)),
    )
}

/// The works that `values` describe, in their order, or what the first of
/// them that cannot be read lacks.
pub open spec fn item_refs_in(values: Seq<json::JsonValue>) -> Result<
    Seq<SeriesItemRefView>,
    ParseError,
>
    decreases values.len(),
{
    if values.len() == 0 {
        Ok(Seq::empty())
    } else {
        match item_refs_in(values.drop_last()) {
            Err(e) => Err(e),
            Ok(front) => match item_ref_in(values.last()) {
                Err(e) => Err(e),
                Ok(item) => Ok(front.push(item)),
            },
        }
    }
}

/// The works that the answer `source` lists as a page of a series.
pub open spec fn series_page_answer(source: Seq<char>) -> Result<
    Seq<SeriesItemRefView>,
    ParseError,
> {
    match document_of(source) {
        None => Err(ParseError::Document),
        Some(doc) => {
            let list = json_member(body_of(doc), "seriesContents"@);
            if json_is_list(list) {
                item_refs_in(json_items(list))
            } else {
                Err(ParseError::Field(Field::SeriesContents))
            }
        },
    }
}

/// The bookmark that `value` describes.
pub open spec fn bookmark_in(value: json::JsonValue) -> Result<BookmarkView, ParseError> {
    bookmark_of(
        json_flag(json_member(value, "isMasked"@)),
        text_in(value, "title"@),
        text_in(value, "userName"@),
        text_in(value, "id"@),
    )
}

/// The bookmarks that `values` describe, in their order, or what the first
/// of them that cannot be read lacks.
pub open spec fn bookmarks_in(values: Seq<json::JsonValue>) -> Result<Seq<BookmarkView>, ParseError>
    decreases values.len(),
{
    if values.len() == 0 {
        Ok(Seq::empty())
    } else {
        match bookmarks_in(values.drop_last()) {
            Err(e) => Err(e),
            Ok(front) => match bookmark_in(values.last()) {
                Err(e) => Err(e),
                Ok(item) => Ok(front.push(item)),
            },
        }
    }
}

/// The page of bookmarks that the answer `source` holds.
pub open spec fn bookmark_page_answer(source: Seq<char>) -> Result<BookmarkPageView, ParseError> {
    match document_of(source) {
        None => Err(ParseError::Document),
        Some(doc) => {
            let list = json_member(body_of(doc), "works"@);
            if !json_is_list(list) {
                Err(ParseError::Field(Field::Works))
            } else {
                match bookmarks_in(json_items(list)) {
                    Err(e) => Err(e),
                    Ok(works) => match json_count(json_member(body_of(doc), "total"@)) {
                        None => Err(ParseError::Field(Field::Total)),
                        Some(total) => Ok(BookmarkPageView { total, works }),
                    },
                }
            }
        },
    }
}

/// Whether nowhere in `source` more digits stand in a row than the parser
/// can count.
pub fn digit_runs_are_short(source: &str) -> (short: bool)
    ensures
        short == digit_runs_within(source@, longest_run()),
{
    let v = chars_of(source);
    let mut run: usize = 0;
    let mut k: usize = 0;
    while k < v.len()
        invariant
            k <= v.len(),
            v@ == source@,
            run == digits_before(v@, k as int),
            run <= k,
            forall|m: int| 0 <= m <= k ==> #[trigger] digits_before(v@, m) <= longest_run(),
        decreases v.len() - k,
    {
        let c: u32 = v[k] as u32;
        if 0x30 <= c && c <= 0x39 {
            run += 1;
            assert(run == digits_before(v@, k + 1));
            if run > 32767 {
                return false;
            }
        } else {
            run = 0;
            assert(digits_before(v@, k + 1) == 0);
        }
        k += 1;
    }
    true
}

/// Reads the document that `source` holds.
pub(crate) fn read_document(source: &str) -> (doc: Option<json::JsonValue>)
    ensures
        doc == document_of(source@),
{
    if digit_runs_are_short(source) {
        parse_json(source)
    } else {
        None
    }
}

/// Makes a novel of the fields of an answer.
pub fn novel_from(
    title: Option<String>,
    author: Option<String>,
    content: Option<String>,
    uid: Option<String>,
    pid: String,
) -> (r: Result<Novel, ParseError>)
    ensures
        match r {
            Ok(n) => novel_of(text_of(title), text_of(author), text_of(content), text_of(uid), pid@)
                == Ok::<NovelView, ParseError>(n@),
            Err(e) => novel_of(text_of(title), text_of(author), text_of(content), text_of(uid), pid@)
                == Err::<NovelView, ParseError>(e),
        },
{
    let title = match title {
        Some(t) => t,
        None => return Err(ParseError::Field(Field::Title)),
    };
    let author = match author {
        Some(t) => t,
        None => return Err(ParseError::Field(Field::UserName)),
    };
    let content = match content {
        Some(t) => t,
        None => return Err(ParseError::Field(Field::Content)),
    };
    let uid = match uid {
        Some(t) => t,
        None => return Err(ParseError::Field(Field::UserId)),
    };
    Ok(Novel::new(title, author, content, pid, uid))
}

/// Makes the description of a series of the fields of an answer.
pub fn series_info_from(
    title: Option<String>,
    author: Option<String>,
    uid: Option<String>,
    total: Option<u64>,
) -> (r: Result<SeriesInfo, ParseError>)
    ensures
        match r {
            Ok(s) => series_info_of(text_of(title), text_of(author), text_of(uid), total) == Ok::<
                SeriesInfoView,
                ParseError,
            >(s@),
            Err(e) => series_info_of(text_of(title), text_of(author), text_of(uid), total) == Err::<
                SeriesInfoView,
                ParseError,
            >(e),
        },
{
    let title = match title {
        Some(t) => t,
        None => return Err(ParseError::Field(Field::Title)),
    };
    let author = match author {
        Some(t) => t,
        None => return Err(ParseError::Field(Field::UserName)),
    };
    let uid = match uid {
        Some(t) => t,
        None => return Err(ParseError::Field(Field::UserId)),
    };
    let total = match total {
        Some(t) => t,
        None => return Err(ParseError::Field(Field::Total)),
    };
    Ok(SeriesInfo { title, author, uid, total })
}

/// Makes a work of a series of the fields of an answer.
pub fn item_ref_from(id: Option<String>, order: Option<u64>) -> (r: Result<
    SeriesItemRef,
    ParseError,
>)
    ensures
        match r {
            Ok(s) => item_ref_of(text_of(id), order) == Ok::<SeriesItemRefView, ParseError>(s@),
            Err(e) => item_ref_of(text_of(id), order) == Err::<SeriesItemRefView, ParseError>(e),
        },
{
    let id = match id {
        Some(t) => t,
        None => return Err(ParseError::Field(Field::Id)),
    };
    let content_order = match order {
        Some(t) => t,
        None => return Err(ParseError::Field(Field::ContentOrder)),
    };
    Ok(SeriesItemRef { id, content_order })
}

/// Makes a bookmark of the fields of an answer.
pub fn bookmark_from(
    masked: Option<bool>,
    title: Option<String>,
    author: Option<String>,
    id: Option<String>,
) -> (r: Result<Bookmark, ParseError>)
    ensures
        match r {
            Ok(b) => bookmark_of(masked, text_of(title), text_of(author), text_of(id)) == Ok::<
                BookmarkView,
                ParseError,
            >(b@),
            Err(e) => bookmark_of(masked, text_of(title), text_of(author), text_of(id)) == Err::<
                BookmarkView,
                ParseError,
            >(e),
        },
{
    let masked = match masked {
        Some(m) => m,
        None => return Err(ParseError::Field(Field::IsMasked)),
    };
    if masked {
        return Ok(Bookmark::Masked { id });
    }
    let title = match title {
        Some(t) => t,
        None => return Err(ParseError::Field(Field::Title)),
    };
    let author = match author {
        Some(t) => t,
        None => return Err(ParseError::Field(Field::UserName)),
    };
    let id = match id {
        Some(t) => t,
        None => return Err(ParseError::Field(Field::Id)),
    };
    Ok(Bookmark::Work { id, title, author })
}

/// Reads the novel `pid` from the answer of the API.
pub fn get_novel_content(pid: String, answer: &str) -> (r: Result<Novel, ParseError>)
    ensures
        match r {
            Ok(n) => novel_answer(answer@, pid@) == Ok::<NovelView, ParseError>(n@),
            Err(e) => novel_answer(answer@, pid@) == Err::<NovelView, ParseError>(e),
        },
{
    let doc = match read_document(answer) {
        Some(doc) => doc,
        None => return Err(ParseError::Document),
    };
    let body = member(&doc, "body");
    novel_from(
        as_text(member(body, "title")),
        as_text(member(body, "userName")),
        as_text(member(body, "content")),
        as_text(member(body, "userId")),
        pid,
    )
}

/// Reads the description of a series from the answer of the API.
pub fn series_info(answer: &str) -> (r: Result<SeriesInfo, ParseError>)
    ensures
        match r {
            Ok(s) => series_info_answer(answer@) == Ok::<SeriesInfoView, ParseError>(s@),
            Err(e) => series_info_answer(answer@) == Err::<SeriesInfoView, ParseError>(e),
        },
{
    let doc = match read_document(answer) {
        Some(doc) => doc,
        None => return Err(ParseError::Document),
    };
    let body = member(&doc, "body");
    series_info_from(
        as_text(member(body, "title")),
        as_text(member(body, "userName")),
        as_text(member(body, "userId")),
        as_count(member(body, "total")),
    )
}

/// The views of the works of a page.
pub open spec fn refs_seen(page: Seq<SeriesItemRef>) -> Seq<SeriesItemRefView> {
    page.map_values(|r: SeriesItemRef| r@)
}

/// The views of the bookmarks of a page.
pub open spec fn bookmarks_seen(page: Seq<Bookmark>) -> Seq<BookmarkView> {
    page.map_values(|b: Bookmark| b@)
}

/// Reads the works of a series that `values` describe.
pub(crate) fn item_refs_from(values: &Vec<json::JsonValue>) -> (r: Result<Vec<SeriesItemRef>, ParseError>)
    ensures
        match r {
            Ok(page) => item_refs_in(values@) == Ok::<Seq<SeriesItemRefView>, ParseError>(
                refs_seen(page@),
            ),
            Err(e) => item_refs_in(values@) == Err::<Seq<SeriesItemRefView>, ParseError>(e),
        },
{
    let mut page: Vec<SeriesItemRef> = Vec::new();
    let mut k: usize = 0;
    proof {
        assert(refs_seen(page@) =~= Seq::empty());
        assert(values@.take(0) =~= Seq::empty());
    }
    while k < values.len()
        invariant
            k <= values.len(),
            item_refs_in(values@.take(k as int)) == Ok::<Seq<SeriesItemRefView>, ParseError>(
                refs_seen(page@),
            ),
        decreases values.len() - k,
    {
        let value = &values[k];
        let read = item_ref_from(
            as_text(member(value, "id")),
            as_count(member(member(value, "series"), "contentOrder")),
        );
        proof {
            assert(values@.take(k + 1).drop_last() == values@.take(k as int));
            assert(values@.take(k + 1).last() == values@[k as int]);
        }
        match read {
            Err(e) => {
                proof {
                    lemma_item_refs_fail(values@, k + 1);
                }
                return Err(e);
            },
            Ok(item) => {
                proof {
                    assert(refs_seen(page@.push(item)) == refs_seen(page@).push(item@));
                }
                page.push(item);
            },
        }
        k += 1;
    }
    proof {
        assert(values@.take(values@.len() as int) == values@);
    }
    Ok(page)
}

/// Reads a page of a series from the answer of the API.
pub fn series_page(answer: &str) -> (r: Result<Vec<SeriesItemRef>, ParseError>)
    ensures
        match r {
            Ok(page) => series_page_answer(answer@) == Ok::<Seq<SeriesItemRefView>, ParseError>(
                refs_seen(page@),
            ),
            Err(e) => series_page_answer(answer@) == Err::<Seq<SeriesItemRefView>, ParseError>(e),
        },
{
    let doc = match read_document(answer) {
        Some(doc) => doc,
        None => return Err(ParseError::Document),
    };
    let list = member(member(&doc, "body"), "seriesContents");
    if !is_list(list) {
        return Err(ParseError::Field(Field::SeriesContents));
    }
    item_refs_from(&items(list))
}

/// A front part that cannot be read makes the whole page unreadable, with
/// the same word on what is lacking.
pub proof fn lemma_item_refs_fail(values: Seq<json::JsonValue>, n: int)
    requires
        0 <= n <= values.len(),
        item_refs_in(values.take(n)) is Err,
    ensures
        item_refs_in(values) == item_refs_in(values.take(n)),
    decreases values.len() - n,
{
    if n < values.len() {
        assert(values.take(n + 1).drop_last() == values.take(n));
        lemma_item_refs_fail(values, n + 1);
    } else {
        assert(values.take(n) == values);
    }
}

/// The same for bookmarks.
pub proof fn lemma_bookmarks_fail(values: Seq<json::JsonValue>, n: int)
    requires
        0 <= n <= values.len(),
        bookmarks_in(values.take(n)) is Err,
    ensures
        bookmarks_in(values) == bookmarks_in(values.take(n)),
    decreases values.len() - n,
{
    if n < values.len() {
        assert(values.take(n + 1).drop_last() == values.take(n));
        lemma_bookmarks_fail(values, n + 1);
    } else {
        assert(values.take(n) == values);
    }
}

/// Reads the bookmarks that `values` describe.
pub(crate) fn bookmarks_from(values: &Vec<json::JsonValue>) -> (r: Result<Vec<Bookmark>, ParseError>)
    ensures
        match r {
            Ok(works) => bookmarks_in(values@) == Ok::<Seq<BookmarkView>, ParseError>(
                bookmarks_seen(works@),
            ),
            Err(e) => bookmarks_in(values@) == Err::<Seq<BookmarkView>, ParseError>(e),
        },
{
    let mut works: Vec<Bookmark> = Vec::new();
    let mut k: usize = 0;
    proof {
        assert(bookmarks_seen(works@) =~= Seq::empty());
        assert(values@.take(0) =~= Seq::empty());
    }
    while k < values.len()
        invariant
            k <= values.len(),
            bookmarks_in(values@.take(k as int)) == Ok::<Seq<BookmarkView>, ParseError>(
                bookmarks_seen(works@),
            ),
        decreases values.len() - k,
    {
        let value = &values[k];
        let read = bookmark_from(
            as_flag(member(value, "isMasked")),
            as_text(member(value, "title")),
            as_text(member(value, "userName")),
            as_text(member(value, "id")),
        );
        proof {
            assert(values@.take(k + 1).drop_last() == values@.take(k as int));
            assert(values@.take(k + 1).last() == values@[k as int]);
        }
        match read {
            Err(e) => {
                proof {
                    lemma_bookmarks_fail(values@, k + 1);
                }
                return Err(e);
            },
            Ok(item) => {
                proof {
                    assert(bookmarks_seen(works@.push(item)) == bookmarks_seen(works@).push(item@));
                }
                works.push(item);
            },
        }
        k += 1;
    }
    proof {
        assert(values@.take(values@.len() as int) == values@);
    }
    Ok(works)
}

/// Reads a page of bookmarks from the answer of the API.
pub fn bookmark_page(answer: &str) -> (r: Result<BookmarkPage, ParseError>)
    ensures
        match r {
            Ok(page) => bookmark_page_answer(answer@) == Ok::<BookmarkPageView, ParseError>(page@),
            Err(e) => bookmark_page_answer(answer@) == Err::<BookmarkPageView, ParseError>(e),
        },
{
    let doc = match read_document(answer) {
        Some(doc) => doc,
        None => return Err(ParseError::Document),
    };
    let body = member(&doc, "body");
    let list = member(body, "works");
    if !is_list(list) {
        return Err(ParseError::Field(Field::Works));
    }
    let works = match bookmarks_from(&items(list)) {
        Ok(works) => works,
        Err(e) => return Err(e),
    };
    match as_count(member(body, "total")) {
        None => Err(ParseError::Field(Field::Total)),
        Some(total) => Ok(BookmarkPage { total, works }),
    }
}

} // verus!
