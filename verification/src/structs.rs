//! The records that the notifier keeps: one per notice, and the metadata
//! document with the newest notice's hash and the subscribers.
use vstd::prelude::*;

verus! {

/// One row of the notice board.
#[derive(Debug, Hash)]
pub struct NoticeElement {
    pub hash: String,
    pub title: String,
    pub date: String,
    pub file_url: String,
}

/// A notice as text values.
pub struct NoticeView {
    pub hash: Seq<char>,
    pub title: Seq<char>,
    pub date: Seq<char>,
    pub file_url: Seq<char>,
}

impl View for NoticeElement {
    type V = NoticeView;

    open spec fn view(&self) -> NoticeView {
        NoticeView { hash: self.hash@, title: self.title@, date: self.date@, file_url: self.file_url@ }
    }
}

/// The notices of a list, each as text values.
pub open spec fn notices_view(v: Seq<NoticeElement>) -> Seq<NoticeView> {
    v.map_values(|n: NoticeElement| n@)
}

/// The metadata document: the hash of the newest notice already handled and
/// the chat ids of the subscribed users.
#[derive(Debug, Hash)]
pub struct DbMetaData {
    pub latest_hash: String,
    pub subscribed_users: Vec<String>,
}

/// The chat ids of a list, each as text.
pub open spec fn texts_view(v: Seq<String>) -> Seq<Seq<char>> {
    v.map_values(|s: String| s@)
}

} // verus!
