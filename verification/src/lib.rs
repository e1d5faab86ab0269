//! Retrieval of novels from pixiv: the crawl decisions, the parsing of the
//! API's answers, the clean-up of novel text and the layout of the files
//! that hold it. Network and disk stay with the caller, who performs each
//! [`crawl::Action`] and hands back a [`crawl::Reply`].

pub mod answer;
pub mod bookmarks;
pub mod crawl;
pub mod error;
pub mod pixiv;
pub mod reference;
pub mod series;
pub mod store;
pub mod text;
pub mod trusted;
