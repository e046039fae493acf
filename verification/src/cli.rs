//! The command surface of the program and the client-side configuration,
//! as plain data: argument parsing and configuration files are I/O concerns
//! that live outside this library.

use vstd::prelude::*;

verus! {

/// What the program is asked to do.
pub enum Command {
    /// Serve the blog on the configured address.
    Serve,
    /// Publish an article to a blog.
    Publish(Publish),
    /// List all published articles.
    List,
    /// Yank (delete) the article with the given identifier.
    Yank { id: String },
    /// Update the title or content of an existing article.
    Update { id: String, title: Option<String>, path: Option<String> },
    /// Manage server-side secrets.
    Secret(SecretOperation),
}

/// What to publish: a content path and an optional title.
pub struct Publish {
    pub path: String,
    pub title: Option<String>,
}

/// The administrative operations on the secret store.
pub enum SecretOperation {
    /// Create a new secret, optionally with a description.
    Create { description: Option<String> },
    /// List the existing secrets by identifier, never their token values.
    List,
    /// Revoke the secret with the given identifier.
    Revoke { id: i64 },
}

/// What the client needs to reach a server: its address and the bearer
/// secret to submit.
pub struct ClientConfig {
    pub addr: String,
    pub secret: String,
}

} // verus!
