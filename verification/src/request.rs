//! The wire contract: a request envelope carries a bearer secret and one
//! operation; a response is one closed discriminated union.

use vstd::prelude::*;

verus! {

use crate::article::{Article, ArticleImage};

/// The request envelope.
pub struct Request {
    pub secret: String,
    pub request: InnerRequest,
}

/// The closed set of content operations.
pub enum InnerRequest {
    CreateArticle { title: String, content: String },
    GetArticle { url: String },
    YankArticle { id: String },
    UpdateArticle { id: String, title: Option<String>, content: Option<String> },
    ListArticles,
}

/// The listing projection of one article: identifier, title and publication
/// time, never the content.
pub struct ArticleMetadata {
    pub id: String,
    pub title: String,
    /// Whole seconds since the Unix epoch.
    pub published: i64,
}

/// The mathematical image of a listing row.
pub struct MetadataImage {
    pub id: Seq<char>,
    pub title: Seq<char>,
    pub published: int,
}

impl View for ArticleMetadata {
    type V = MetadataImage;

    open spec fn view(&self) -> MetadataImage {
        MetadataImage { id: self.id@, title: self.title@, published: self.published as int }
    }
}

/// The listing projection of an article row.
pub open spec fn meta_of(a: ArticleImage) -> MetadataImage {
    MetadataImage { id: a.id, title: a.title, published: a.published }
}

/// The response envelope.
pub enum Response {
    Article(Article),
    ArticleId(String),
    ArticleMetadata(Vec<ArticleMetadata>),
    Untyped { kind: String, content: String },
    Accepted,
    Error(String),
}

} // verus!
