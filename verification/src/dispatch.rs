//! The request dispatcher: authenticates the caller against the secret
//! store, routes one content operation against the article store, and
//! produces one discriminated response.  Every per-request failure is
//! confined to the response; nothing here panics.

use vstd::prelude::*;

verus! {

use vstd::string::StringExecFns;

use crate::article::ArticleImage;
use crate::request::{InnerRequest, Request, Response, meta_of};
use crate::secret::{SecretStore, spec_is_valid};
use crate::store::{ArticleStore, contains_id, opt_text, spec_delete, spec_get_by_slug, spec_update};

/// The response text for a rejected credential.
pub open spec fn invalid_secret_message() -> Seq<char> {
    "Invalid secret"@
}

/// The response text for a slug that matches no article.
pub open spec fn not_found_message(url: Seq<char>) -> Seq<char> {
    "No article with url "@ + url + " found"@
}

/// The response text for a creation that lost the identifier draw.
pub open spec fn duplicate_id_message() -> Seq<char> {
    "duplicate article id"@
}

/// What the dispatcher owes for one request: if the secret is not stored,
/// an `Invalid secret` error and no mutation at all; otherwise the routed
/// operation's own contract, operation by operation.
pub open spec fn dispatched(
    before: Seq<ArticleImage>,
    after: Seq<ArticleImage>,
    request: Request,
    r: Response,
) -> bool {
    match request.request {
        InnerRequest::CreateArticle { title, content } => match r {
            Response::ArticleId(id) => exists|a: ArticleImage|
                after == before.push(a) && #[trigger] a.id == id@ && a.title == title@ && a.content
                    == content@ && !contains_id(before, a.id),
            Response::Error(m) => after == before && m@ == duplicate_id_message(),
            _ => false,
        },
        InnerRequest::GetArticle { url } => after == before && match spec_get_by_slug(
            before,
            url@,
        ) {
            Some(a) => r matches Response::Article(found) && found@ == a,
            None => r matches Response::Error(m) && m@ == not_found_message(url@),
        },
        InnerRequest::YankArticle { id } => after == spec_delete(before, id@) && r
            is Accepted,
        InnerRequest::UpdateArticle { id, title, content } => after == spec_update(
            before,
            id@,
            opt_text(title),
            opt_text(content),
        ) && r is Accepted,
        InnerRequest::ListArticles => after == before && (r matches Response::ArticleMetadata(v)
            && v@.len() == before.len() && forall|i: int|
            0 <= i < before.len() ==> (#[trigger] v@[i])@ == meta_of(before[i])),
    }
}

/// Authenticates the embedded secret and routes the operation.  An invalid
/// secret is rejected before any operation is attempted, whatever was
/// requested; a valid one is dispatched under each operation's contract.
pub fn handle_api_request(articles: &mut ArticleStore, secrets: &SecretStore, request: Request) -> (r:
    Response)
    requires
        old(articles).wf(),
    ensures
        final(articles).wf(),
        !spec_is_valid(secrets@, request.secret@) ==> final(articles)@ == old(articles)@ && (
        r matches Response::Error(m) && m@ == invalid_secret_message()),
        spec_is_valid(secrets@, request.secret@) ==> dispatched(
            old(articles)@,
            final(articles)@,
            request,
            r,
        ),
{
    if !secrets.is_valid(&request.secret) {
        return Response::Error("Invalid secret".to_owned());
    }
    match request.request {
        InnerRequest::CreateArticle { title, content } => match articles.insert(title, content) {
            Ok(a) => Response::ArticleId(a.id),
            Err(_) => Response::Error("duplicate article id".to_owned()),
        },
        InnerRequest::GetArticle { url } => match articles.get_by_slug(&url) {
            Some(a) => Response::Article(a),
            None => {
                let mut m = "No article with url ".to_owned();
                m.append(url.as_str());
                m.append(" found");
                Response::Error(m)
            },
        },
        InnerRequest::YankArticle { id } => {
            articles.delete(&id);
            Response::Accepted
        },
        InnerRequest::UpdateArticle { id, title, content } => {
            articles.update(&id, title, content);
            Response::Accepted
        },
        InnerRequest::ListArticles => Response::ArticleMetadata(articles.list_metadata()),
    }
}

} // verus!
