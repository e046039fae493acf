//! Comments on articles: rows stamped like articles, from a plain request
//! shape.

use vstd::prelude::*;

verus! {

use crate::article::fresh_uuid;
use crate::clock::{MAX_TIMESTAMP, format_timestamp, formatted_of, now_timestamp};

/// One comment row.
pub struct Comment {
    pub id: String,
    pub article: String,
    pub author: String,
    pub content: String,
    /// Whole seconds since the Unix epoch.
    pub published: i64,
}

/// The plain shape a comment arrives in: the target article, an author and
/// the text.
pub struct CommentRequest {
    pub article: String,
    pub author: String,
    pub content: String,
}

impl Comment {
    /// Stamps a fresh comment: a random identifier, the request's fields,
    /// and the current clock reading as publication time.
    pub fn from_request(req: CommentRequest) -> (r: Comment)
        ensures
            r.article@ == req.article@,
            r.author@ == req.author@,
            r.content@ == req.content@,
            r.id@.len() == 36,
    {
        Comment {
            id: fresh_uuid(),
            article: req.article,
            author: req.author,
            content: req.content,
            published: now_timestamp(),
        }
    }

    /// The publication time rendered for display, `day.month.year
    /// hour:minute`; empty for a timestamp outside the renderable range.
    pub fn published(&self) -> (r: String)
        ensures
            0 <= self.published <= MAX_TIMESTAMP ==> r@ == formatted_of(self.published),
            !(0 <= self.published <= MAX_TIMESTAMP) ==> r@ == Seq::<char>::empty(),
    {
        if 0 <= self.published && self.published <= MAX_TIMESTAMP {
            format_timestamp(self.published)
        } else {
            String::new()
        }
    }
}

} // verus!
