//! The feed projection: what a syndication item carries for one article.
//! Serialising the feed itself is presentation and lives outside the
//! library; this module fixes the item's fields — canonical permalink,
//! rendered content and RFC 2822 publication date.

use vstd::prelude::*;

verus! {

use vstd::string::StringExecFns;

use crate::article::Article;
use crate::clock::{MAX_TIMESTAMP, rfc2822_of, rfc2822_timestamp};
use crate::render::{article_html_of, render_article_html};
use crate::slug::slug_of;

/// One syndication item, as plain text fields.
pub struct FeedItem {
    pub title: String,
    /// The article content rendered to HTML.
    pub content: String,
    pub author: String,
    /// The canonical permalink; also the item's globally unique identifier.
    pub link: String,
    /// The publication time in RFC 2822 form.
    pub pub_date: String,
}

/// The canonical permalink of a title under a domain.
pub open spec fn permalink_of(domain: Seq<char>, title: Seq<char>) -> Seq<char> {
    "https://"@ + domain + "/article/"@ + slug_of(title)
}

/// Builds the canonical permalink of a title under a domain.
pub fn permalink(domain: &str, title: &str) -> (r: String)
    ensures
        r@ == permalink_of(domain@, title@),
{
    let mut r = "https://".to_owned();
    r.append(domain);
    r.append("/article/");
    let slug = crate::slug::to_url(title);
    r.append(slug.as_str());
    r
}

/// Projects one article to its syndication item under the feed's domain and
/// author.  A publication time outside the renderable range yields an empty
/// date field.
pub fn feed_item(article: &Article, domain: &str, author: &str) -> (r: FeedItem)
    ensures
        r.title@ == article@.title,
        r.content@ == article_html_of(article@.content),
        r.author@ == author@,
        r.link@ == permalink_of(domain@, article@.title),
        0 <= article.published <= MAX_TIMESTAMP ==> r.pub_date@ == rfc2822_of(article.published),
        !(0 <= article.published <= MAX_TIMESTAMP) ==> r.pub_date@ == Seq::<char>::empty(),
{
    let pub_date = if 0 <= article.published && article.published <= MAX_TIMESTAMP {
        rfc2822_timestamp(article.published)
    } else {
        String::new()
    };
    FeedItem {
        title: article.title.clone(),
        content: render_article_html(article.content.as_str()),
        author: author.to_owned(),
        link: permalink(domain, article.title.as_str()),
        pub_date,
    }
}

} // verus!
