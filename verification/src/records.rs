//! What is stored of a video.

use vstd::prelude::*;

verus! {

/// One stored video: its number in the store, its id and title, its length
/// in seconds, when it was uploaded, its captions and its summary once they
/// are there, its keywords in one line, when it was stored, and the address
/// of its picture.
#[derive(Clone, Debug, PartialEq, Eq)]
pub struct Audio {
    pub id: i64,
    pub video_id: String,
    pub title: String,
    pub duration: u64,
    pub upload_date: u64,
    pub transcripts: Option<String>,
    pub summary: Option<String>,
    pub keywords: String,
    pub timestamp: i64,
    pub thumbnail_url: String,
}

} // verus!
