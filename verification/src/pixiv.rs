//! A novel, a series of novels, and the files that hold them.

use crate::text::{clean, cleaned, is_clean};
use crate::trusted::{
    cut_to, dots_only, fit_part, matches_removed, may_be_device, remove_matches, sanitize,
    unfit_for_names,
};
use vstd::prelude::*;
use vstd::string::StringExecFns;

verus! {

/// The pattern of the directives, as `regex` reads it.
pub open spec fn directive_pattern() -> Seq<char> {
    "\\[newpage\\]|\\[chapter[^\\]\\n]+\\]|\\[uploadedimage[^\\]\\n]+\\]"@
}

/// The content of a novel as it is kept: what `regex` leaves of `content`
/// after one pass over the directives, brought to its clean form.
pub open spec fn processed(content: Seq<char>) -> Seq<char> {
    match matches_removed(directive_pattern(), content) {
        Some(rest) => cleaned(rest),
        None => cleaned(content),
    }
}

/// The name of a work's file before it is made fit for a file system.
pub open spec fn plain_name(title: Seq<char>, author: Seq<char>) -> Seq<char> {
    title + "-"@ + author + ".txt"@
}

/// The name of the file of the work `title` by `author`, as far as it is
/// the same on every platform: the plain name without its unfit characters,
/// cut to 255 bytes.
pub open spec fn file_name_of(title: Seq<char>, author: Seq<char>) -> Seq<char> {
    cut_to(fit_part(plain_name(title, author)), 255)
}

/// `name` is the name of the file of the work `title` by `author`. That is
/// `file_name_of`; only where the plain name reads like the name of a
/// device, a platform may give no name at all.
pub open spec fn names_work(name: Seq<char>, title: Seq<char>, author: Seq<char>) -> bool {
    &&& name == file_name_of(title, author) || (name.len() == 0 && may_be_device(
        fit_part(plain_name(title, author)),
    ))
    &&& name.is_prefix_of(fit_part(plain_name(title, author)))
}

/// No character of `name` is unfit for a file name, and `name` takes at
/// most 255 bytes.
pub open spec fn fit_for_names(name: Seq<char>) -> bool {
    &&& forall|i: int| 0 <= i < name.len() ==> !unfit_for_names(#[trigger] name[i])
    &&& vstd::utf8::encode_utf8(name).len() <= 255
}

/// The lines that open the file of a single novel.
pub open spec fn novel_header(pid: Seq<char>, title: Seq<char>, author: Seq<char>, uid: Seq<char>) -> Seq<char> {
    "pid:"@ + pid + "\ntitle:"@ + title + "\nauthor:"@ + author + "["@ + uid
        + "]\n==================\n"@
}

/// The lines that open the file of a series.
pub open spec fn series_header(pid: Seq<char>, title: Seq<char>, author: Seq<char>, uid: Seq<char>) -> Seq<char> {
    "pid:"@ + pid + "\nseries:"@ + title + "\nauthor:"@ + author + "["@ + uid
        + "]\n==================\n"@
}

/// The part of a series file that holds one novel.
pub open spec fn chapter(title: Seq<char>, content: Seq<char>) -> Seq<char> {
    "###"@ + title + "\n"@ + content + "\n"@
}

/// What filtering keeps holds no unfit character, and neither does any
/// front part of it.
pub proof fn lemma_fit_part(name: Seq<char>, front: Seq<char>)
    requires
        front.is_prefix_of(fit_part(name)),
    ensures
        forall|i: int| 0 <= i < front.len() ==> !unfit_for_names(#[trigger] front[i]),
{
    let keep = |c: char| !unfit_for_names(c);
    assert forall|i: int| 0 <= i < front.len() implies !unfit_for_names(#[trigger] front[i]) by {
        assert(front[i] == fit_part(name)[i]);
        name.lemma_filter_pred(keep, i);
    }
}

/// Cutting gives a front part, and one that is short enough.
pub proof fn lemma_cut_to(name: Seq<char>, limit: nat)
    ensures
        cut_to(name, limit).is_prefix_of(name),
        vstd::utf8::encode_utf8(cut_to(name, limit)).len() <= limit,
    decreases name.len(),
{
    if name.len() == 0 {
        assert(vstd::utf8::encode_utf8(name).len() == 0);
    } else if vstd::utf8::encode_utf8(name).len() > limit {
        lemma_cut_to(name.drop_last(), limit);
        assert(cut_to(name, limit) =~= name.subrange(0, cut_to(name, limit).len() as int));
    } else {
        assert(name =~= name.subrange(0, name.len() as int));
    }
}

/// The plain name of a work is never made of dots only, and neither is what
/// is fit in it: the hyphen between title and author stays.
pub proof fn lemma_plain_name_keeps_hyphen(title: Seq<char>, author: Seq<char>)
    ensures
        !dots_only(fit_part(plain_name(title, author))),
{
    reveal_strlit("-");
    let plain = plain_name(title, author);
    let keep = |c: char| !unfit_for_names(c);
    let at = title.len() as int;
    assert(plain[at] == '-');
    assert(keep(plain[at]));
    plain.lemma_filter_contains(keep, at);
    let fit = fit_part(plain);
    let j = choose|j: int| 0 <= j < fit.len() && fit[j] == '-';
    assert(fit[j] != '.');
}

/// The file name of the work `title` by `author`: `{title}-{author}.txt`
/// without the characters that no file name may hold, cut to 255 bytes.
/// Only where that name reads like the name of a device, the platform may
/// give the empty name in its place.
pub fn file_name(title: &str, author: &str) -> (name: String)
    ensures
        names_work(name@, title@, author@),
        !may_be_device(fit_part(plain_name(title@, author@))) ==> name@ == file_name_of(
            title@,
            author@,
        ),
        fit_for_names(name@),
{
    let mut plain = String::from_str(title);
    plain.append("-");
    plain.append(author);
    plain.append(".txt");
    let name = sanitize(plain.as_str());
    proof {
        lemma_plain_name_keeps_hyphen(title@, author@);
        lemma_cut_to(fit_part(plain@), 255);
        if name@.len() == 0 {
            assert(name@ =~= Seq::<char>::empty());
            assert(vstd::utf8::encode_utf8(name@).len() == 0);
            assert(name@.is_prefix_of(fit_part(plain@)));
        }
        lemma_fit_part(plain@, name@);
    }
    name
}

/// A request to write `text` to the file `name`. An exclusive write creates
/// the file and fails where one of that name exists; any other appends to
/// the file and creates it where none exists.
#[derive(Clone, Debug, PartialEq, Eq)]
pub struct FileWrite {
    pub name: String,
    pub text: String,
    pub exclusive: bool,
}

/// What a `FileWrite` holds.
pub struct FileWriteView {
    pub name: Seq<char>,
    pub text: Seq<char>,
    pub exclusive: bool,
}

impl View for FileWrite {
    type V = FileWriteView;

    open spec fn view(&self) -> FileWriteView {
        FileWriteView { name: self.name@, text: self.text@, exclusive: self.exclusive }
    }
}

/// `write` saves the novel `novel` to a file of its own.
pub open spec fn saves(write: FileWriteView, novel: NovelView) -> bool {
    &&& write.exclusive
    &&& names_work(write.name, novel.title, novel.author)
    &&& fit_for_names(write.name)
    &&& write.text == novel_header(novel.pid, novel.title, novel.author, novel.uid) + novel.content
}

/// A single novel.
#[derive(Debug)]
pub struct Novel {
    content: String,
    author: String,
    title: String,
    pid: String,
    uid: String,
}

/// What a `Novel` holds.
pub struct NovelView {
    pub content: Seq<char>,
    pub author: Seq<char>,
    pub title: Seq<char>,
    pub pid: Seq<char>,
    pub uid: Seq<char>,
}

impl View for Novel {
    type V = NovelView;

    closed spec fn view(&self) -> NovelView {
        NovelView {
            content: self.content@,
            author: self.author@,
            title: self.title@,
            pid: self.pid@,
            uid: self.uid@,
        }
    }
}

impl Novel {
    /// A novel's content is kept clean.
    #[verifier::type_invariant]
    closed spec fn kept_clean(&self) -> bool {
        is_clean(self.content@)
    }

    /// The novel with the content as the platform sent it, brought to its
    /// clean form.
    pub fn new(title: String, author: String, content: String, pid: String, uid: String) -> (novel:
        Novel)
        ensures
            novel@ == (NovelView {
                content: processed(content@),
                author: author@,
                title: title@,
                pid: pid@,
                uid: uid@,
            }),
            is_clean(novel@.content),
    {
        Novel { content: Novel::post_process(content.as_str()), author, title, pid, uid }
    }

    /// The title of the novel.
    pub fn title(&self) -> (s: &String)
        ensures
            s@ == self@.title,
    {
        &self.title
    }

    /// The name of the author.
    pub fn author(&self) -> (s: &String)
        ensures
            s@ == self@.author,
    {
        &self.author
    }

    /// The content, in its clean form.
    pub fn content(&self) -> (s: &String)
        ensures
            s@ == self@.content,
            is_clean(s@),
    {
        proof {
            use_type_invariant(self);
        }
        &self.content
    }

    /// The id of the novel.
    pub fn pid(&self) -> (s: &String)
        ensures
            s@ == self@.pid,
    {
        &self.pid
    }

    /// The id of the author.
    pub fn uid(&self) -> (s: &String)
        ensures
            s@ == self@.uid,
    {
        &self.uid
    }

    /// `{title}-{author}.txt`, as it stands before it is made fit for a file
    /// system.
    pub fn get_filename(&self) -> (name: String)
        ensures
            name@ == plain_name(self@.title, self@.author),
    {
        let mut name = String::from_str(self.title.as_str());
        name.append("-");
        name.append(self.author.as_str());
        name.append(".txt");
        name
    }

    /// The text of the novel's file: its header, then its content.
    pub fn page(&self) -> (text: String)
        ensures
            text@ == novel_header(self@.pid, self@.title, self@.author, self@.uid) + self@.content,
    {
        let mut text = String::from_str("pid:");
        text.append(self.pid.as_str());
        text.append("\ntitle:");
        text.append(self.title.as_str());
        text.append("\nauthor:");
        text.append(self.author.as_str());
        text.append("[");
        text.append(self.uid.as_str());
        text.append("]\n==================\n");
        text.append(self.content.as_str());
        text
    }

    /// The write that saves the novel to a file of its own. It is exclusive:
    /// a file that exists is never written over.
    pub fn save(&self) -> (write: FileWrite)
        ensures
            saves(write@, self@),
    {
        FileWrite {
            name: file_name(self.title.as_str(), self.author.as_str()),
            text: self.page(),
            exclusive: true,
        }
    }

    /// Takes the directives `[newpage]`, `[chapter…]` and `[uploadedimage…]`
    /// out of `content` and merges each run of newlines into one.
    pub fn post_process(content: &str) -> (out: String)
        ensures
            out@ == processed(content@),
            is_clean(out@),
    {
        match remove_matches("\\[newpage\\]|\\[chapter[^\\]\\n]+\\]|\\[uploadedimage[^\\]\\n]+\\]", content) {
            Some(rest) => clean(rest.as_str()),
            None => clean(content),
        }
    }
}

/// A series: the file that its novels are gathered in.
#[derive(Clone, Debug, PartialEq, Eq)]
pub struct Series {
    /// The name of the series' file.
    pub name: String,
    pub pid: String,
}

impl Series {
    /// The series and the write that opens its file with the header.
    pub fn new(title: String, author: String, pid: String, uid: String) -> (made: (Series, FileWrite))
        ensures
            made.0.pid@ == pid@,
            names_work(made.0.name@, title@, author@),
            fit_for_names(made.0.name@),
            made.1.name@ == made.0.name@,
            !made.1.exclusive,
            made.1.text@ == series_header(pid@, title@, author@, uid@),
    {
        let name = file_name(title.as_str(), author.as_str());
        let mut text = String::from_str("pid:");
        text.append(pid.as_str());
        text.append("\nseries:");
        text.append(title.as_str());
        text.append("\nauthor:");
        text.append(author.as_str());
        text.append("[");
        text.append(uid.as_str());
        text.append("]\n==================\n");
        let write = FileWrite { name: name.clone(), text, exclusive: false };
        (Series { name, pid }, write)
    }

    /// The write that appends `novel` to the series' file.
    pub fn append(&self, novel: Novel) -> (write: FileWrite)
        ensures
            write.name@ == self.name@,
            !write.exclusive,
            write.text@ == chapter(novel@.title, novel@.content),
    {
        let mut text = String::from_str("###");
        text.append(novel.title.as_str());
        text.append("\n");
        text.append(novel.content.as_str());
        text.append("\n");
        FileWrite { name: self.name.clone(), text, exclusive: false }
    }
}

} // verus!
