//! Verified core of a single-author blog: slug derivation, the article and
//! secret stores, and the request dispatcher that authenticates a caller and
//! routes one of a small set of content operations.

pub mod article;
pub mod cli;
pub mod clock;
pub mod comment;
pub mod dispatch;
pub mod feed;
pub mod render;
pub mod request;
pub mod secret;
pub mod store;
pub mod slug;
mod text;
