//! Articles: the rows of the content store.
//!
//! An article carries an opaque identifier stamped at creation, free-text
//! title and markdown content, and a publication timestamp that is set once
//! and never mutated.

use vstd::prelude::*;

verus! {

use crate::clock::{MAX_TIMESTAMP, format_timestamp, formatted_of, now_timestamp};
use crate::render::{article_html_of, render_article_html};
use crate::slug::{slug_of, to_url};
use crate::text::{chars_of, string_from_chars};

/// One article row.
pub struct Article {
    pub id: String,
    pub title: String,
    pub content: String,
    /// Whole seconds since the Unix epoch.
    pub published: i64,
}

/// The mathematical image of an article: its fields as sequences and an
/// unbounded integer.
pub struct ArticleImage {
    pub id: Seq<char>,
    pub title: Seq<char>,
    pub content: Seq<char>,
    pub published: int,
}

impl View for Article {
    type V = ArticleImage;

    open spec fn view(&self) -> ArticleImage {
        ArticleImage {
            id: self.id@,
            title: self.title@,
            content: self.content@,
            published: self.published as int,
        }
    }
}

/// Relies on `uuid::Uuid::new_v4` and its hyphenated `Display` form: a
/// random version-4 UUID rendered as 36 characters.  The value is random, so
/// nothing beyond its length is promised; in particular freshness must be
/// checked by the caller.
#[verifier::external_body]
pub(crate) fn fresh_uuid() -> (r: String)
    ensures
        r@.len() == 36,
{
    uuid::Uuid::new_v4().to_string()
}

/// How many lines of the content the teaser shows.
pub const TEASER_LINES: u64 = 5;

/// The first `lines_left` lines of a text, joined by line feeds: line breaks
/// are `\n` or `\r\n`, a final line break ends the last line, and the breaks
/// themselves are re-joined as plain `\n`.
pub open spec fn teaser_of(s: Seq<char>, lines_left: nat) -> Seq<char>
    decreases s.len(),
{
    if s.len() == 0 || lines_left == 0 {
        Seq::<char>::empty()
    } else if s[0] == '\n' {
        if lines_left == 1 || s.len() == 1 {
            Seq::<char>::empty()
        } else {
            seq!['\n'] + teaser_of(s.skip(1), (lines_left - 1) as nat)
        }
    } else if s[0] == '\r' && s.len() >= 2 && s[1] == '\n' {
        if lines_left == 1 || s.len() == 2 {
            Seq::<char>::empty()
        } else {
            seq!['\n'] + teaser_of(s.skip(2), (lines_left - 1) as nat)
        }
    } else {
        seq![s[0]] + teaser_of(s.skip(1), lines_left)
    }
}

impl Article {
    /// Stamps a fresh article: a random identifier, the given title and
    /// content, and the current clock reading as publication time.
    pub fn new(title: String, content: String) -> (r: Article)
        ensures
            r@.title == title@,
            r@.content == content@,
            r@.id.len() == 36,
    {
        Article { id: fresh_uuid(), title, content, published: now_timestamp() }
    }

    /// The publication time rendered for display, `day.month.year hour:minute`;
    /// empty for a timestamp outside the renderable range.
    pub fn published(&self) -> (r: String)
        ensures
            0 <= self.published <= MAX_TIMESTAMP ==> r@ == formatted_of(self.published),
            !(0 <= self.published <= MAX_TIMESTAMP) ==> r@ == Seq::<char>::empty(),
    {
        if 0 <= self.published && self.published <= MAX_TIMESTAMP {
            format_timestamp(self.published)
        } else {
            String::new()
        }
    }

    /// The first lines of the content, shown on the index page.
    pub fn teaser(&self) -> (r: String)
        ensures
            r@ == teaser_of(self@.content, TEASER_LINES as nat),
    {
        let cs = chars_of(self.content.as_str());
        let mut out: Vec<char> = Vec::new();
        let mut i: usize = 0;
        let mut left: u64 = TEASER_LINES;
        proof {
            assert(cs@.skip(0) =~= cs@);
            assert(Seq::<char>::empty() + teaser_of(cs@, TEASER_LINES as nat) =~= teaser_of(
                cs@,
                TEASER_LINES as nat,
            ));
        }
        while i < cs.len() && left > 0
            invariant
                i <= cs.len(),
                cs@ == self@.content,
                teaser_of(cs@, TEASER_LINES as nat) == out@ + teaser_of(
                    cs@.skip(i as int),
                    left as nat,
                ),
            decreases cs.len() - i + left,
        {
            let ghost rest = cs@.skip(i as int);
            let c = cs[i];
            if c == '\n' {
                if left == 1 || i + 1 == cs.len() {
                    left = 0;
                } else {
                    proof {
                        assert(rest.skip(1) =~= cs@.skip(i + 1));
                        assert(out@ + (seq!['\n'] + teaser_of(rest.skip(1), (left - 1) as nat))
                            =~= out@.push('\n') + teaser_of(cs@.skip(i + 1), (left - 1) as nat));
                    }
                    out.push('\n');
                    left = left - 1;
                    i = i + 1;
                }
            } else if c == '\r' && i + 1 < cs.len() && cs[i + 1] == '\n' {
                if left == 1 || i + 2 == cs.len() {
                    left = 0;
                } else {
                    proof {
                        assert(rest.skip(2) =~= cs@.skip(i + 2));
                        assert(out@ + (seq!['\n'] + teaser_of(rest.skip(2), (left - 1) as nat))
                            =~= out@.push('\n') + teaser_of(cs@.skip(i + 2), (left - 1) as nat));
                    }
                    out.push('\n');
                    left = left - 1;
                    i = i + 2;
                }
            } else {
                proof {
                    assert(rest.skip(1) =~= cs@.skip(i + 1));
                    assert(out@ + (seq![rest[0]] + teaser_of(rest.skip(1), left as nat)) =~= out@
                        .push(c) + teaser_of(cs@.skip(i + 1), left as nat));
                }
                out.push(c);
                i = i + 1;
            }
        }
        proof {
            assert(out@ + teaser_of(cs@.skip(i as int), left as nat) =~= out@);
        }
        string_from_chars(&out)
    }

    /// A field-wise copy of the row.
    pub fn duplicate(&self) -> (r: Article)
        ensures
            r@ == self@,
            r.published == self.published,
    {
        Article {
            id: self.id.clone(),
            title: self.title.clone(),
            content: self.content.clone(),
            published: self.published,
        }
    }

    /// The article's URL-safe slug, derived from its title.
    pub fn url(&self) -> (r: String)
        ensures
            r@ == slug_of(self@.title),
    {
        to_url(self.title.as_str())
    }

    /// The article's content rendered from markdown to HTML.
    pub fn content(&self) -> (r: String)
        ensures
            r@ == article_html_of(self@.content),
    {
        render_article_html(self.content.as_str())
    }
}

} // verus!
