//! References to works as the user gives them, and the addresses of the API
//! that answer for them.

use crate::error::ParseError;
use crate::text::{chars_of, holds, holds_at};
use crate::trusted::{first_match, leftmost_match, string_of, text_of};
use vstd::prelude::*;
use vstd::string::StringExecFns;

verus! {

/// `rest` is what stands in `s` behind the last `c`.
pub open spec fn follows_last(s: Seq<char>, c: char, rest: Seq<char>) -> bool {
    exists|i: int|
        0 <= i < s.len() && #[trigger] s[i] == c && rest == s.subrange(i + 1, s.len() as int)
            && !rest.contains(c)
}

/// The part of `text` behind its last `c`, if `c` stands in it.
pub fn after_last(text: &str, c: char) -> (rest: Option<String>)
    ensures
        match rest {
            Some(r) => follows_last(text@, c, r@),
            None => !text@.contains(c),
        },
{
    let v = chars_of(text);
    let mut i: usize = v.len();
    while i > 0
        invariant
            i <= v.len(),
            v@ == text@,
            forall|k: int| i <= k < v.len() ==> v@[k] != c,
        decreases i,
    {
        if v[i - 1] == c {
            let mut rest: Vec<char> = Vec::new();
            let mut k: usize = i;
            while k < v.len()
                invariant
                    i <= k <= v.len(),
                    rest@ == v@.subrange(i as int, k as int),
                decreases v.len() - k,
            {
                rest.push(v[k]);
                k += 1;
            }
            proof {
                let w = i - 1;
                assert(v@[w] == c && rest@ == v@.subrange(w + 1, v@.len() as int));
                assert forall|m: int| 0 <= m < rest@.len() implies rest@[m] != c by {
                    assert(rest@[m] == v@[i + m]);
                }
            }
            return Some(string_of(&rest));
        }
        i -= 1;
    }
    None
}

/// The id of the novel that `url` shows: what follows its last `=`.
pub fn novel_id(url: &str) -> (id: Result<String, ParseError>)
    ensures
        match id {
            Ok(pid) => follows_last(url@, '=', pid@),
            Err(e) => e == ParseError::Reference && !url@.contains('='),
        },
{
    match after_last(url, '=') {
        Some(pid) => Ok(pid),
        None => Err(ParseError::Reference),
    }
}

/// The id of the series that `url` shows: what follows its last `/`.
pub fn series_id(url: &str) -> (id: Result<String, ParseError>)
    ensures
        match id {
            Ok(sid) => follows_last(url@, '/', sid@),
            Err(e) => e == ParseError::Reference && !url@.contains('/'),
        },
{
    match after_last(url, '/') {
        Some(sid) => Ok(sid),
        None => Err(ParseError::Reference),
    }
}

/// What a reference asks for.
#[derive(Clone, Debug, PartialEq, Eq)]
pub enum Mode {
    /// The bookmarks of the user with this id.
    Bookmarks(String),
    /// A user's page without the wish for bookmarks: nothing is retrieved.
    Nothing,
    /// A series.
    Series,
    /// A single novel.
    Single,
}

/// What a `Mode` holds.
pub enum ModeView {
    Bookmarks(Seq<char>),
    Nothing,
    Series,
    Single,
}

impl View for Mode {
    type V = ModeView;

    open spec fn view(&self) -> ModeView {
        match *self {
            Mode::Bookmarks(uid) => ModeView::Bookmarks(uid@),
            Mode::Nothing => ModeView::Nothing,
            Mode::Series => ModeView::Series,
            Mode::Single => ModeView::Single,
        }
    }
}

/// The outcome of a choice of mode, seen through its view.
pub open spec fn mode_seen(r: Result<Mode, ParseError>) -> Result<ModeView, ParseError> {
    match r {
        Ok(m) => Ok(m@),
        Err(e) => Err(e),
    }
}

/// The address that every user's page begins with.
pub open spec fn users_prefix() -> Seq<char> {
    "https://www.pixiv.net/users/"@
}

/// `word` stands somewhere in `s`.
pub open spec fn has_word(s: Seq<char>, word: Seq<char>) -> bool {
    exists|i: int| 0 <= i <= s.len() && #[trigger] holds_at(s, i, word)
}

/// Whether `word` stands somewhere in `v`.
pub fn contains_word(v: &Vec<char>, word: &Vec<char>) -> (b: bool)
    ensures
        b == has_word(v@, word@),
{
    let mut i: usize = 0;
    while i <= v.len()
        invariant
            i <= v.len() + 1,
            forall|k: int| 0 <= k < i ==> !#[trigger] holds_at(v@, k, word@),
        decreases v.len() + 1 - i,
    {
        if holds(v, i, word) {
            return true;
        }
        if i == v.len() {
            return false;
        }
        i += 1;
    }
    false
}

/// What a user's page asks for, given the first run of digits of its
/// address: the bookmarks of that user if they are wished for.
pub open spec fn user_mode_of(digits: Option<Seq<char>>, bookmark: bool) -> Result<
    ModeView,
    ParseError,
> {
    match digits {
        None => Err(ParseError::Reference),
        Some(uid) => if bookmark {
            Ok(ModeView::Bookmarks(uid))
        } else {
            Ok(ModeView::Nothing)
        },
    }
}

/// What `url` asks for. A user's page asks for the user's bookmarks where
/// `bookmark` is set, the user being named by the first run of digits; any
/// other address that holds the word `series` asks for a series, and the
/// rest for a single novel.
pub open spec fn mode_of(url: Seq<char>, bookmark: bool) -> Result<ModeView, ParseError> {
    if holds_at(url, 0, users_prefix()) {
        user_mode_of(leftmost_match("\\d+"@, url), bookmark)
    } else if has_word(url, "series"@) {
        Ok(ModeView::Series)
    } else {
        Ok(ModeView::Single)
    }
}

/// The mode of a user's page whose address holds `digits` as its first run
/// of digits.
pub fn user_mode(digits: Option<String>, bookmark: bool) -> (mode: Result<Mode, ParseError>)
    ensures
        mode_seen(mode) == user_mode_of(text_of(digits), bookmark),
{
    match digits {
        None => Err(ParseError::Reference),
        Some(uid) => if bookmark {
            Ok(Mode::Bookmarks(uid))
        } else {
            Ok(Mode::Nothing)
        },
    }
}

/// Chooses what to retrieve for `url`.
pub fn select_mode(url: &str, bookmark: bool) -> (mode: Result<Mode, ParseError>)
    ensures
        mode_seen(mode) == mode_of(url@, bookmark),
{
    let v = chars_of(url);
    if holds(&v, 0, &chars_of("https://www.pixiv.net/users/")) {
        user_mode(first_match("\\d+", url), bookmark)
    } else if contains_word(&v, &chars_of("series")) {
        Ok(Mode::Series)
    } else {
        Ok(Mode::Single)
    }
}

/// The decimal digit `d`.
pub open spec fn digit(d: int) -> char {
    if d == 0 {
        '0'
    } else if d == 1 {
        '1'
    } else if d == 2 {
        '2'
    } else if d == 3 {
        '3'
    } else if d == 4 {
        '4'
    } else if d == 5 {
        '5'
    } else if d == 6 {
        '6'
    } else if d == 7 {
        '7'
    } else if d == 8 {
        '8'
    } else {
        '9'
    }
}

/// `n` written in decimal digits, without leading zeros.
pub open spec fn decimal(n: nat) -> Seq<char>
    decreases n,
{
    if n < 10 {
        seq![digit(n as int)]
    } else {
        decimal(n / 10).push(digit((n % 10) as int))
    }
}

/// The decimal digit `d` as a character.
pub fn digit_char(d: u64) -> (c: char)
    requires
        d < 10,
    ensures
        c == digit(d as int),
{
    if d == 0 {
        '0'
    } else if d == 1 {
        '1'
    } else if d == 2 {
        '2'
    } else if d == 3 {
        '3'
    } else if d == 4 {
        '4'
    } else if d == 5 {
        '5'
    } else if d == 6 {
        '6'
    } else if d == 7 {
        '7'
    } else if d == 8 {
        '8'
    } else {
        '9'
    }
}

/// Appends the decimal digits of `n` to `out`.
pub fn push_decimal(n: u64, out: &mut Vec<char>)
    ensures
        final(out)@ == old(out)@ + decimal(n as nat),
    decreases n,
{
    if n < 10 {
        out.push(digit_char(n));
    } else {
        push_decimal(n / 10, out);
        out.push(digit_char(n % 10));
    }
}

/// `n` in decimal digits.
pub fn decimal_string(n: u64) -> (s: String)
    ensures
        s@ == decimal(n as nat),
{
    let mut out: Vec<char> = Vec::new();
    push_decimal(n, &mut out);
    string_of(&out)
}

/// The address that answers for the novel `pid`.
pub open spec fn novel_address(pid: Seq<char>) -> Seq<char> {
    "https://www.pixiv.net/ajax/novel/"@ + pid
}

/// The address that answers for the series `sid`.
pub open spec fn series_address(sid: Seq<char>) -> Seq<char> {
    "https://www.pixiv.net/ajax/novel/series/"@ + sid
}

/// The address of the page of the series `sid` that follows the work of
/// the order `last_order`: up to 30 works, in rising order.
pub open spec fn series_page_address(sid: Seq<char>, last_order: nat) -> Seq<char> {
    "https://www.pixiv.net/ajax/novel/series_content/"@ + sid + "?limit=30&last_order="@ + decimal(
        last_order,
    ) + "&order_by=asc"@
}

/// The address of the page of the bookmarks of the user `uid` that starts
/// at `offset`: up to 24 works.
pub open spec fn bookmarks_address(uid: Seq<char>, offset: nat) -> Seq<char> {
    "https://www.pixiv.net/ajax/user/"@ + uid + "/novels/bookmarks?tag=&offset="@ + decimal(offset)
        + "&limit=24&rest=show&lang=zh"@
}

/// The address that answers for the novel `pid`.
pub fn novel_url(pid: &str) -> (url: String)
    ensures
        url@ == novel_address(pid@),
{
    let mut url = String::from_str("https://www.pixiv.net/ajax/novel/");
    url.append(pid);
    url
}

/// The address that answers for the series `sid`.
pub fn series_url(sid: &str) -> (url: String)
    ensures
        url@ == series_address(sid@),
{
    let mut url = String::from_str("https://www.pixiv.net/ajax/novel/series/");
    url.append(sid);
    url
}

/// The address of the page of the series `sid` behind the cursor.
pub fn series_page_url(sid: &str, last_order: u64) -> (url: String)
    ensures
        url@ == series_page_address(sid@, last_order as nat),
{
    let mut url = String::from_str("https://www.pixiv.net/ajax/novel/series_content/");
    url.append(sid);
    url.append("?limit=30&last_order=");
    url.append(decimal_string(last_order).as_str());
    url.append("&order_by=asc");
    url
}

/// The address of the page of the bookmarks of `uid` from `offset` on.
pub fn bookmarks_url(uid: &str, offset: u64) -> (url: String)
    ensures
        url@ == bookmarks_address(uid@, offset as nat),
{
    let mut url = String::from_str("https://www.pixiv.net/ajax/user/");
    url.append(uid);
    url.append("/novels/bookmarks?tag=&offset=");
    url.append(decimal_string(offset).as_str());
    url.append("&limit=24&rest=show&lang=zh");
    url
}

} // verus!
