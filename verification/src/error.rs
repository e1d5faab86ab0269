//! The ways in which a crawl fails.

use vstd::prelude::*;

verus! {

/// A field of the API's answers that the crawl cannot do without.
#[derive(Clone, Copy, Debug, PartialEq, Eq, Structural)]
pub enum Field {
    Title,
    UserName,
    UserId,
    Content,
    Total,
    Id,
    SeriesContents,
    ContentOrder,
    Works,
    IsMasked,
}

/// Why an answer of the API, or a reference to a work, could not be read.
#[derive(Clone, Copy, Debug, PartialEq, Eq, Structural)]
pub enum ParseError {
    /// The text is not JSON.
    Document,
    /// The reference does not name a work, a series or a user.
    Reference,
    /// The field is absent or is not of the type it must have.
    Field(Field),
}

/// Why a crawl stopped before its end.
#[derive(Clone, Copy, Debug, PartialEq, Eq, Structural)]
pub enum CrawlError {
    /// A request needs the session cookie and none was given.
    Config,
    /// A request failed.
    Network,
    /// An answer could not be read.
    Parse(ParseError),
    /// A file could not be created or written.
    File,
    /// A page of a series brought no work although the series is not
    /// complete.
    ProgressStalled,
}

} // verus!
