//! What a write does to the files of a directory. `Shelf` keeps files in
//! memory and performs writes as a disk is expected to: it says what a
//! [`FileWrite`] means, and lets a crawl be tried without a disk.

use crate::crawl::{Action, Reply};
use crate::error::CrawlError;
use crate::pixiv::{FileWrite, FileWriteView};
use vstd::prelude::*;
use vstd::string::StringExecFns;

verus! {

/// One file: its name and its text.
#[derive(Clone, Debug, PartialEq, Eq)]
pub struct Entry {
    pub name: String,
    pub text: String,
}

/// Files by name, kept in memory.
#[derive(Debug)]
pub struct Shelf {
    files: Vec<Entry>,
}

/// The file at place `i` of `files` has the name `name`.
pub open spec fn named(files: Seq<Entry>, name: Seq<char>, i: int) -> bool {
    0 <= i < files.len() && files[i].name@ == name
}

/// No two of `files` share a name.
pub open spec fn distinct(files: Seq<Entry>) -> bool {
    forall|i: int, j: int|
        0 <= i < j < files.len() ==> (#[trigger] files[i]).name@ != (#[trigger] files[j]).name@
}

/// The files as a map from names to texts.
pub open spec fn shelved(files: Seq<Entry>) -> Map<Seq<char>, Seq<char>> {
    Map::new(
        |name: Seq<char>| exists|i: int| named(files, name, i),
        |name: Seq<char>| files[choose|i: int| named(files, name, i)].text@,
    )
}

/// The files after the write `w`, where it succeeds: a file that did not
/// exist holds the text of `w`, and one that did has it appended.
pub open spec fn written(files: Map<Seq<char>, Seq<char>>, w: FileWriteView) -> Map<
    Seq<char>,
    Seq<char>,
> {
    if files.dom().contains(w.name) {
        files.insert(w.name, files[w.name] + w.text)
    } else {
        files.insert(w.name, w.text)
    }
}

/// The write `w` is refused: it is exclusive and its file exists.
pub open spec fn refused(files: Map<Seq<char>, Seq<char>>, w: FileWriteView) -> bool {
    w.exclusive && files.dom().contains(w.name)
}

/// Where names are distinct, the file of a name is the one that bears it.
pub proof fn lemma_shelved(files: Seq<Entry>, i: int)
    requires
        distinct(files),
        0 <= i < files.len(),
    ensures
        shelved(files).dom().contains(files[i].name@),
        shelved(files)[files[i].name@] == files[i].text@,
{
    let name = files[i].name@;
    assert(named(files, name, i));
    let c = choose|k: int| named(files, name, k);
    assert(c == i);
}

/// Putting `entry` in the place of a file of the same name changes the
/// text under that name and nothing else.
pub proof fn lemma_shelved_update(files: Seq<Entry>, i: int, entry: Entry)
    requires
        distinct(files),
        0 <= i < files.len(),
        entry.name@ == files[i].name@,
    ensures
        distinct(files.update(i, entry)),
        shelved(files.update(i, entry)) == shelved(files).insert(entry.name@, entry.text@),
{
    let after = files.update(i, entry);
    assert(distinct(after));
    assert forall|name: Seq<char>|
        shelved(after).dom().contains(name) <==> shelved(files).insert(
            entry.name@,
            entry.text@,
        ).dom().contains(name) by {
        if shelved(after).dom().contains(name) {
            let k = choose|k: int| named(after, name, k);
            assert(named(files, name, k));
        }
        if shelved(files).dom().contains(name) {
            let k = choose|k: int| named(files, name, k);
            assert(named(after, name, k));
        }
        if name == entry.name@ {
            assert(named(after, name, i));
        }
    }
    assert forall|name: Seq<char>| shelved(after).dom().contains(name) implies shelved(after)[name]
        == shelved(files).insert(entry.name@, entry.text@)[name] by {
        let k = choose|k: int| named(after, name, k);
        lemma_shelved(after, k);
        if k != i {
            lemma_shelved(files, k);
        }
    }
    assert(shelved(after) =~= shelved(files).insert(entry.name@, entry.text@));
}

/// Adding a file under a new name adds that name and its text and changes
/// nothing else.
pub proof fn lemma_shelved_push(files: Seq<Entry>, entry: Entry)
    requires
        distinct(files),
        !shelved(files).dom().contains(entry.name@),
    ensures
        distinct(files.push(entry)),
        shelved(files.push(entry)) == shelved(files).insert(entry.name@, entry.text@),
{
    let after = files.push(entry);
    assert forall|i: int, j: int| 0 <= i < j < after.len() implies (#[trigger] after[i]).name@ != (
    #[trigger] after[j]).name@ by {
        if j == files.len() {
            assert(named(files, files[i].name@, i));
        }
    }
    assert forall|name: Seq<char>|
        shelved(after).dom().contains(name) <==> shelved(files).insert(
            entry.name@,
            entry.text@,
        ).dom().contains(name) by {
        if shelved(after).dom().contains(name) {
            let k = choose|k: int| named(after, name, k);
            if k < files.len() {
                assert(named(files, name, k));
            }
        }
        if shelved(files).dom().contains(name) {
            let k = choose|k: int| named(files, name, k);
            assert(named(after, name, k));
        }
        if name == entry.name@ {
            assert(named(after, name, files.len() as int));
        }
    }
    assert forall|name: Seq<char>| shelved(after).dom().contains(name) implies shelved(after)[name]
        == shelved(files).insert(entry.name@, entry.text@)[name] by {
        let k = choose|k: int| named(after, name, k);
        lemma_shelved(after, k);
        if k < files.len() {
            lemma_shelved(files, k);
        }
    }
    assert(shelved(after) =~= shelved(files).insert(entry.name@, entry.text@));
}

impl View for Shelf {
    type V = Map<Seq<char>, Seq<char>>;

    closed spec fn view(&self) -> Map<Seq<char>, Seq<char>> {
        shelved(self.files@)
    }
}

impl Shelf {
    #[verifier::type_invariant]
    closed spec fn well_formed(&self) -> bool {
        distinct(self.files@)
    }

    /// A shelf without files.
    pub fn new() -> (shelf: Shelf)
        ensures
            shelf@ == Map::<Seq<char>, Seq<char>>::empty(),
    {
        let shelf = Shelf { files: Vec::new() };
        assert(shelf@ =~= Map::<Seq<char>, Seq<char>>::empty());
        shelf
    }

    /// The place of the file `name`, if there is one.
    fn find(&self, name: &String) -> (place: Option<usize>)
        ensures
            match place {
                Some(i) => named(self.files@, name@, i as int),
                None => !self@.dom().contains(name@),
            },
    {
        let mut i: usize = 0;
        while i < self.files.len()
            invariant
                i <= self.files.len(),
                forall|k: int| 0 <= k < i ==> !named(self.files@, name@, k),
            decreases self.files.len() - i,
        {
            if self.files[i].name == *name {
                return Some(i);
            }
            i += 1;
        }
        None
    }

    /// Whether a file `name` exists.
    pub fn holds(&self, name: &String) -> (found: bool)
        ensures
            found == self@.dom().contains(name@),
    {
        match self.find(name) {
            Some(i) => {
                proof {
                    use_type_invariant(self);
                    lemma_shelved(self.files@, i as int);
                }
                true
            },
            None => false,
        }
    }

    /// The text of the file `name`, if it exists.
    pub fn read(&self, name: &String) -> (text: Option<String>)
        ensures
            match text {
                Some(t) => self@.dom().contains(name@) && t@ == self@[name@],
                None => !self@.dom().contains(name@),
            },
    {
        match self.find(name) {
            Some(i) => {
                proof {
                    use_type_invariant(self);
                    lemma_shelved(self.files@, i as int);
                }
                Some(self.files[i].text.clone())
            },
            None => None,
        }
    }

    /// Performs the write `w`. An exclusive write fails where its file
    /// exists, and then nothing is written; every other write succeeds.
    pub fn write(self, w: &FileWrite) -> (done: (Shelf, Result<(), CrawlError>))
        ensures
            match done.1 {
                Ok(_) => !refused(self@, w@) && done.0@ == written(self@, w@),
                Err(e) => e == CrawlError::File && refused(self@, w@) && done.0@ == self@,
            },
    {
        proof {
            use_type_invariant(&self);
        }
        match self.find(&w.name) {
            Some(i) => {
                proof {
                    lemma_shelved(self.files@, i as int);
                }
                if w.exclusive {
                    return (self, Err(CrawlError::File));
                }
                let mut text = self.files[i].text.clone();
                text.append(w.text.as_str());
                let entry = Entry { name: w.name.clone(), text };
                proof {
                    lemma_shelved_update(self.files@, i as int, entry);
                }
                let mut files = self.files;
                files.set(i, entry);
                (Shelf { files }, Ok(()))
            },
            None => {
                let entry = Entry { name: w.name.clone(), text: w.text.clone() };
                proof {
                    lemma_shelved_push(self.files@, entry);
                }
                let mut files = self.files;
                files.push(entry);
                (Shelf { files }, Ok(()))
            },
        }
    }

    /// Answers the action of a crawl as far as it concerns files: whether a
    /// file exists, and a write. Any other action is not for the shelf.
    pub fn perform(self, action: &Action) -> (done: (Shelf, Option<Reply>))
        ensures
            match *action {
                Action::Probe(name) => done.1 matches Some(Reply::Found(found)) && found
                    == self@.dom().contains(name@) && done.0@ == self@,
                Action::Write(w) => if refused(self@, w@) {
                    done.1 matches Some(Reply::Failed) && done.0@ == self@
                } else {
                    done.1 matches Some(Reply::Written) && done.0@ == written(self@, w@)
                },
                _ => done.1 is None && done.0@ == self@,
            },
    {
        match action {
            Action::Probe(name) => {
                let found = self.holds(name);
                (self, Some(Reply::Found(found)))
            },
            Action::Write(w) => {
                let (shelf, done) = self.write(w);
                match done {
                    Ok(_) => (shelf, Some(Reply::Written)),
                    Err(_) => (shelf, Some(Reply::Failed)),
                }
            },
            _ => (self, None),
        }
    }
}

} // verus!
