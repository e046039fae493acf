//! The article store: owns the article rows and enforces their invariants —
//! identifiers are unique, deletion is silent and idempotent, updates rewrite
//! exactly the supplied fields and never touch the publication time.

use vstd::prelude::*;

verus! {

use crate::article::{Article, ArticleImage, fresh_uuid};
use crate::clock::now_timestamp;
use crate::request::{ArticleMetadata, meta_of};
use crate::slug::{slug_of, to_url};

broadcast use vstd::seq_lib::group_to_multiset_ensures;

/// The images of a sequence of article rows.
pub open spec fn imgs(s: Seq<Article>) -> Seq<ArticleImage> {
    s.map_values(|a: Article| a@)
}

/// Rows ordered newest first by publication time.
pub open spec fn sorted_by_published_desc(s: Seq<ArticleImage>) -> bool {
    forall|i: int, j: int| 0 <= i <= j < s.len() ==> s[i].published >= s[j].published
}

/// A store-level failure: the freshly drawn identifier already names a row,
/// so persisting the new row would violate the primary key.
#[derive(Debug)]
pub enum StoreError {
    DuplicateId,
}

/// All identifiers in a row sequence are distinct.
pub open spec fn ids_unique(s: Seq<ArticleImage>) -> bool {
    forall|i: int, j: int|
        0 <= i < s.len() && 0 <= j < s.len() && i != j ==> s[i].id != s[j].id
}

/// Whether some row carries the identifier.
pub open spec fn contains_id(s: Seq<ArticleImage>, id: Seq<char>) -> bool {
    exists|i: int| 0 <= i < s.len() && s[i].id == id
}

/// The first row carrying the identifier, in store order.
pub open spec fn spec_get_by_id(s: Seq<ArticleImage>, id: Seq<char>) -> Option<ArticleImage>
    decreases s.len(),
{
    if s.len() == 0 {
        None
    } else if s[0].id == id {
        Some(s[0])
    } else {
        spec_get_by_id(s.drop_first(), id)
    }
}

/// The first row whose derived slug equals the argument, in store order.
pub open spec fn spec_get_by_slug(s: Seq<ArticleImage>, slug: Seq<char>) -> Option<ArticleImage>
    decreases s.len(),
{
    if s.len() == 0 {
        None
    } else if slug_of(s[0].title) == slug {
        Some(s[0])
    } else {
        spec_get_by_slug(s.drop_first(), slug)
    }
}

/// The rows left after deleting every row with the identifier.
pub open spec fn spec_delete(s: Seq<ArticleImage>, id: Seq<char>) -> Seq<ArticleImage>
    decreases s.len(),
{
    if s.len() == 0 {
        Seq::<ArticleImage>::empty()
    } else {
        let rest = spec_delete(s.drop_last(), id);
        if s.last().id == id {
            rest
        } else {
            rest.push(s.last())
        }
    }
}

/// One row after a partial update aimed at `id`: a row with another
/// identifier is untouched; on the matching row exactly the supplied fields
/// are replaced, and identifier and publication time stay.
pub open spec fn apply_update(
    a: ArticleImage,
    id: Seq<char>,
    title: Option<Seq<char>>,
    content: Option<Seq<char>>,
) -> ArticleImage {
    if a.id == id {
        ArticleImage {
            id: a.id,
            title: if title is Some {
                title->0
            } else {
                a.title
            },
            content: if content is Some {
                content->0
            } else {
                a.content
            },
            published: a.published,
        }
    } else {
        a
    }
}

/// The text of an optional replacement field.
pub open spec fn opt_text(o: Option<String>) -> Option<Seq<char>> {
    match o {
        Some(s) => Some(s@),
        None => None,
    }
}

/// The rows after a partial update aimed at `id`.
pub open spec fn spec_update(
    s: Seq<ArticleImage>,
    id: Seq<char>,
    title: Option<Seq<char>>,
    content: Option<Seq<char>>,
) -> Seq<ArticleImage> {
    s.map_values(|a: ArticleImage| apply_update(a, id, title, content))
}

/// The store: article rows in insertion order.
pub struct ArticleStore {
    articles: Vec<Article>,
}

impl View for ArticleStore {
    type V = Seq<ArticleImage>;

    closed spec fn view(&self) -> Seq<ArticleImage> {
        self.articles@.map_values(|a: Article| a@)
    }
}

impl ArticleStore {
    /// The store invariant: no two rows share an identifier.
    pub open spec fn wf(&self) -> bool {
        ids_unique(self@)
    }

    /// An empty store.
    pub fn new() -> (r: ArticleStore)
        ensures
            r@ == Seq::<ArticleImage>::empty(),
            r.wf(),
    {
        let r = ArticleStore { articles: Vec::new() };
        proof {
            assert(r@ =~= Seq::<ArticleImage>::empty());
        }
        r
    }

    /// Whether a row with this identifier exists.
    pub fn contains_article_id(&self, id: &String) -> (r: bool)
        ensures
            r == contains_id(self@, id@),
    {
        let mut j: usize = 0;
        while j < self.articles.len()
            invariant
                j <= self.articles.len(),
                forall|k: int| 0 <= k < j ==> self@[k].id != id@,
            decreases self.articles.len() - j,
        {
            if self.articles[j].id == *id {
                assert(self@[j as int].id == id@);
                return true;
            }
            j += 1;
        }
        false
    }

    /// Stamps a fresh identifier and the current time, persists the row, and
    /// returns it.  Fails only when the freshly drawn random identifier
    /// already names a row, the store-level image of a primary-key clash.
    pub fn insert(&mut self, title: String, content: String) -> (r: Result<Article, StoreError>)
        requires
            old(self).wf(),
        ensures
            final(self).wf(),
            r matches Ok(a) ==> a@.title == title@ && a@.content == content@ && !contains_id(
                old(self)@,
                a@.id,
            ) && final(self)@ == old(self)@.push(a@),
            r matches Err(_) ==> final(self)@ == old(self)@,
    {
        let id = fresh_uuid();
        let published = now_timestamp();
        self.insert_with(id, published, title, content)
    }

    /// Persists a row built from the given parts.  Succeeds exactly when the
    /// identifier is not yet in the store, and then appends the row.
    pub fn insert_with(&mut self, id: String, published: i64, title: String, content: String) -> (r:
        Result<Article, StoreError>)
        requires
            old(self).wf(),
        ensures
            final(self).wf(),
            r is Ok <==> !contains_id(old(self)@, id@),
            r matches Ok(a) ==> a@ == (ArticleImage {
                id: id@,
                title: title@,
                content: content@,
                published: published as int,
            }) && final(self)@ == old(self)@.push(a@),
            r matches Err(_) ==> final(self)@ == old(self)@,
    {
        if self.contains_article_id(&id) {
            Err(StoreError::DuplicateId)
        } else {
            let a = Article { id, title, content, published };
            let dup = a.duplicate();
            proof {
                assert(self.articles@.push(a).map_values(|x: Article| x@) =~= self@.push(a@));
            }
            self.articles.push(a);
            Ok(dup)
        }
    }

    /// The first row with this identifier, or `None`.
    pub fn get_by_id(&self, id: &String) -> (r: Option<Article>)
        ensures
            match r {
                Some(a) => spec_get_by_id(self@, id@) == Some(a@),
                None => spec_get_by_id(self@, id@) is None,
            },
    {
        let mut j: usize = 0;
        while j < self.articles.len()
            invariant
                j <= self.articles.len(),
                forall|k: int| 0 <= k < j ==> self@[k].id != id@,
            decreases self.articles.len() - j,
        {
            if self.articles[j].id == *id {
                proof {
                    lemma_get_by_id_skip(self@, id@, j as int);
                }
                return Some(self.articles[j].duplicate());
            }
            j += 1;
        }
        proof {
            lemma_get_by_id_skip(self@, id@, self@.len() as int);
        }
        None
    }

    /// The first row whose derived slug equals the argument, or `None`:
    /// slugs are recomputed from the titles on every lookup, never stored.
    pub fn get_by_slug(&self, slug: &String) -> (r: Option<Article>)
        ensures
            match r {
                Some(a) => spec_get_by_slug(self@, slug@) == Some(a@),
                None => spec_get_by_slug(self@, slug@) is None,
            },
    {
        let mut j: usize = 0;
        while j < self.articles.len()
            invariant
                j <= self.articles.len(),
                forall|k: int| 0 <= k < j ==> slug_of(self@[k].title) != slug@,
            decreases self.articles.len() - j,
        {
            if to_url(self.articles[j].title.as_str()) == *slug {
                proof {
                    lemma_get_by_slug_skip(self@, slug@, j as int);
                }
                return Some(self.articles[j].duplicate());
            }
            j += 1;
        }
        proof {
            lemma_get_by_slug_skip(self@, slug@, self@.len() as int);
        }
        None
    }

    /// Deletes every row with this identifier; deleting an absent identifier
    /// succeeds silently.
    pub fn delete(&mut self, id: &String)
        requires
            old(self).wf(),
        ensures
            final(self).wf(),
            final(self)@ == spec_delete(old(self)@, id@),
            !contains_id(final(self)@, id@),
    {
        let ghost s = self@;
        let mut out: Vec<Article> = Vec::new();
        let mut j: usize = 0;
        proof {
            assert(s.take(0) =~= Seq::<ArticleImage>::empty());
            assert(out@.map_values(|x: Article| x@) =~= Seq::<ArticleImage>::empty());
        }
        while j < self.articles.len()
            invariant
                j <= self.articles.len(),
                s == self@,
                self@ == self.articles@.map_values(|x: Article| x@),
                out@.map_values(|x: Article| x@) == spec_delete(s.take(j as int), id@),
            decreases self.articles.len() - j,
        {
            proof {
                assert(s.take(j + 1).drop_last() =~= s.take(j as int));
                assert(s.take(j + 1).last() == s[j as int]);
            }
            if !(self.articles[j].id == *id) {
                let d = self.articles[j].duplicate();
                proof {
                    assert(out@.push(d).map_values(|x: Article| x@) =~= out@.map_values(
                        |x: Article| x@,
                    ).push(s[j as int]));
                }
                out.push(d);
            }
            j += 1;
        }
        proof {
            assert(s.take(s.len() as int) =~= s);
            lemma_delete_clean(s, id@);
            lemma_delete_unique(s, id@);
        }
        self.articles = out;
    }

    /// Rewrites exactly the supplied fields of every row with this
    /// identifier; `published` is never touched, supplying neither field or
    /// an absent identifier changes nothing.
    pub fn update(&mut self, id: &String, title: Option<String>, content: Option<String>)
        requires
            old(self).wf(),
        ensures
            final(self).wf(),
            final(self)@ == spec_update(old(self)@, id@, opt_text(title), opt_text(content)),
    {
        let ghost s = self@;
        let ghost tv = opt_text(title);
        let ghost cv = opt_text(content);
        let mut out: Vec<Article> = Vec::new();
        let mut j: usize = 0;
        while j < self.articles.len()
            invariant
                j <= self.articles.len(),
                s == self@,
                tv == opt_text(title),
                cv == opt_text(content),
                self@ == self.articles@.map_values(|x: Article| x@),
                out@.len() == j,
                forall|k: int|
                    0 <= k < j ==> (#[trigger] out@[k])@ == apply_update(s[k], id@, tv, cv),
            decreases self.articles.len() - j,
        {
            let a = &self.articles[j];
            proof {
                assert(a@ == s[j as int]);
            }
            if a.id == *id {
                let new_title: String = if title.is_some() {
                    title.as_ref().unwrap().clone()
                } else {
                    a.title.clone()
                };
                let new_content: String = if content.is_some() {
                    content.as_ref().unwrap().clone()
                } else {
                    a.content.clone()
                };
                let row = Article {
                    id: a.id.clone(),
                    title: new_title,
                    content: new_content,
                    published: a.published,
                };
                proof {
                    assert(row@ == apply_update(s[j as int], id@, tv, cv));
                }
                out.push(row);
            } else {
                let row = a.duplicate();
                proof {
                    assert(row@ == apply_update(s[j as int], id@, tv, cv));
                }
                out.push(row);
            }
            j += 1;
        }
        proof {
            assert(out@.map_values(|x: Article| x@) =~= spec_update(s, id@, tv, cv));
            assert(ids_unique(spec_update(s, id@, tv, cv)));
        }
        self.articles = out;
    }

    /// The listing projection of every row, in store order: identifier,
    /// title and publication time, never the content.
    pub fn list_metadata(&self) -> (r: Vec<ArticleMetadata>)
        ensures
            r@.len() == self@.len(),
            forall|i: int| 0 <= i < self@.len() ==> (#[trigger] r@[i])@ == meta_of(self@[i]),
    {
        let mut r: Vec<ArticleMetadata> = Vec::new();
        let mut j: usize = 0;
        while j < self.articles.len()
            invariant
                j <= self.articles.len(),
                self@ == self.articles@.map_values(|x: Article| x@),
                r@.len() == j,
                forall|i: int| 0 <= i < j ==> (#[trigger] r@[i])@ == meta_of(self@[i]),
            decreases self.articles.len() - j,
        {
            let a = &self.articles[j];
            r.push(
                ArticleMetadata {
                    id: a.id.clone(),
                    title: a.title.clone(),
                    published: a.published,
                },
            );
            j += 1;
        }
        r
    }

    /// Every full row, ordered newest first by publication time.
    pub fn list_all_ordered_by_published_desc(&self) -> (r: Vec<Article>)
        ensures
            sorted_by_published_desc(imgs(r@)),
            imgs(r@).to_multiset() == self@.to_multiset(),
    {
        let mut work: Vec<Article> = Vec::new();
        let mut j: usize = 0;
        while j < self.articles.len()
            invariant
                j <= self.articles.len(),
                self@ == self.articles@.map_values(|x: Article| x@),
                imgs(work@) == self@.take(j as int),
            decreases self.articles.len() - j,
        {
            let d = self.articles[j].duplicate();
            proof {
                assert(imgs(work@).len() == work@.len());
                assert(work@.len() == j);
                assert(d@ == self@[j as int]);
                assert forall|k: int| 0 <= k < j + 1 implies imgs(work@.push(d))[k] == self@.take(
                    j + 1,
                )[k] by {
                    if k < j {
                        assert(imgs(work@.push(d))[k] == imgs(work@)[k]);
                    }
                }
                assert(imgs(work@.push(d)) =~= self@.take(j + 1));
            }
            work.push(d);
            j += 1;
        }
        proof {
            assert(self@.take(self@.len() as int) =~= self@);
        }
        let mut out: Vec<Article> = Vec::new();
        while work.len() > 0
            invariant
                sorted_by_published_desc(imgs(out@)),
                imgs(out@).to_multiset().add(imgs(work@).to_multiset()) == self@.to_multiset(),
                forall|p: int, q: int|
                    0 <= p < out@.len() && 0 <= q < work@.len() ==> (#[trigger] out@[p]).published
                        >= (#[trigger] work@[q]).published,
            decreases work.len(),
        {
            let mut best: usize = 0;
            let mut k: usize = 1;
            while k < work.len()
                invariant
                    best < k <= work.len(),
                    work.len() > 0,
                    forall|m: int|
                        0 <= m < k ==> (#[trigger] work@[m]).published
                            <= work@[best as int].published,
                decreases work.len() - k,
            {
                if work[k].published > work[best].published {
                    best = k;
                }
                k += 1;
            }
            let ghost work0 = work@;
            let ghost out0 = out@;
            let picked = work.remove(best);
            proof {
                assert(imgs(work0)[best as int] == picked@);
                assert(imgs(work0).contains(picked@));
                assert(imgs(work@) =~= imgs(work0).remove(best as int));
                assert(imgs(work@).to_multiset() == imgs(work0).to_multiset().remove(picked@));
            }
            out.push(picked);
            proof {
                assert(imgs(out@) =~= imgs(out0).push(picked@));
                assert(imgs(out@).to_multiset() == imgs(out0).to_multiset().insert(picked@));
                assert(imgs(out@).to_multiset().add(imgs(work@).to_multiset()) =~= imgs(
                    out0,
                ).to_multiset().add(imgs(work0).to_multiset()));
            }
        }
        proof {
            assert(imgs(work@).to_multiset().len() == 0);
            assert(imgs(out@).to_multiset().add(imgs(work@).to_multiset()) =~= imgs(
                out@,
            ).to_multiset());
        }
        out
    }
}

/// Scanning past a prefix without the identifier does not change the result
/// of the first-match lookup.
proof fn lemma_get_by_id_skip(s: Seq<ArticleImage>, id: Seq<char>, k: int)
    requires
        0 <= k <= s.len(),
        forall|i: int| 0 <= i < k ==> s[i].id != id,
    ensures
        spec_get_by_id(s, id) == spec_get_by_id(s.skip(k), id),
    decreases k,
{
    if k > 0 {
        lemma_get_by_id_skip(s.drop_first(), id, k - 1);
        assert(s.drop_first().skip(k - 1) =~= s.skip(k));
    } else {
        assert(s.skip(0) =~= s);
    }
}

/// Scanning past a prefix whose slugs all differ does not change the result
/// of the first-match slug lookup.
proof fn lemma_get_by_slug_skip(s: Seq<ArticleImage>, slug: Seq<char>, k: int)
    requires
        0 <= k <= s.len(),
        forall|i: int| 0 <= i < k ==> slug_of(s[i].title) != slug,
    ensures
        spec_get_by_slug(s, slug) == spec_get_by_slug(s.skip(k), slug),
    decreases k,
{
    if k > 0 {
        lemma_get_by_slug_skip(s.drop_first(), slug, k - 1);
        assert(s.drop_first().skip(k - 1) =~= s.skip(k));
    } else {
        assert(s.skip(0) =~= s);
    }
}

/// Deletion removes every row with the identifier and keeps the others.
proof fn lemma_delete_clean(s: Seq<ArticleImage>, id: Seq<char>)
    ensures
        !contains_id(spec_delete(s, id), id),
        forall|i: int|
            0 <= i < spec_delete(s, id).len() ==> exists|j: int|
                0 <= j < s.len() && #[trigger] spec_delete(s, id)[i] == s[j],
    decreases s.len(),
{
    if s.len() > 0 {
        lemma_delete_clean(s.drop_last(), id);
        let rest = spec_delete(s.drop_last(), id);
        assert forall|i: int| 0 <= i < spec_delete(s, id).len() implies exists|j: int|
            0 <= j < s.len() && #[trigger] spec_delete(s, id)[i] == s[j] by {
            if i < rest.len() {
                let j = choose|j: int| 0 <= j < s.drop_last().len() && rest[i] == s.drop_last()[j];
                assert(spec_delete(s, id)[i] == s[j]);
            } else {
                assert(spec_delete(s, id)[i] == s[s.len() - 1]);
            }
        }
    }
}

/// Deletion preserves the uniqueness of identifiers.
proof fn lemma_delete_unique(s: Seq<ArticleImage>, id: Seq<char>)
    requires
        ids_unique(s),
    ensures
        ids_unique(spec_delete(s, id)),
    decreases s.len(),
{
    if s.len() > 0 {
        lemma_delete_unique(s.drop_last(), id);
        lemma_delete_clean(s.drop_last(), id);
        let rest = spec_delete(s.drop_last(), id);
        if s.last().id != id {
            assert forall|i: int, j: int|
                0 <= i < rest.push(s.last()).len() && 0 <= j < rest.push(s.last()).len() && i
                    != j implies rest.push(s.last())[i].id != rest.push(s.last())[j].id by {
                if i < rest.len() && j < rest.len() {
                } else {
                    let k = if i < rest.len() {
                        i
                    } else {
                        j
                    };
                    let m = choose|m: int|
                        0 <= m < s.drop_last().len() && rest[k] == s.drop_last()[m];
                    assert(s[m].id != s[s.len() - 1].id);
                }
            }
        }
    }
}

/// Deleting an identifier twice is the same as deleting it once.
pub proof fn lemma_delete_idempotent(s: Seq<ArticleImage>, id: Seq<char>)
    ensures
        spec_delete(spec_delete(s, id), id) == spec_delete(s, id),
{
    lemma_delete_clean(s, id);
    lemma_delete_absent(spec_delete(s, id), id);
}

/// Deleting an identifier that no row carries changes nothing.
pub proof fn lemma_delete_absent(s: Seq<ArticleImage>, id: Seq<char>)
    requires
        !contains_id(s, id),
    ensures
        spec_delete(s, id) == s,
    decreases s.len(),
{
    if s.len() > 0 {
        assert(forall|i: int| 0 <= i < s.drop_last().len() ==> s.drop_last()[i] == s[i]);
        lemma_delete_absent(s.drop_last(), id);
        assert(s[s.len() - 1].id != id);
        assert(spec_delete(s, id) =~= s);
    } else {
        assert(spec_delete(s, id) =~= s);
    }
}

/// Round trip: a row inserted under a fresh identifier is exactly what a
/// subsequent lookup by that identifier returns, its title, content and
/// publication time stamped once.  The lookup is a function of the store
/// alone, so repeating it on the unchanged store yields the same row.
pub proof fn lemma_insert_get_round_trip(s: Seq<ArticleImage>, a: ArticleImage)
    requires
        !contains_id(s, a.id),
    ensures
        spec_get_by_id(s.push(a), a.id) == Some(a),
    decreases s.len(),
{
    if s.len() == 0 {
        assert(s.push(a)[0] == a);
    } else {
        assert(s[0].id != a.id);
        assert forall|i: int| 0 <= i < s.drop_first().len() implies (#[trigger] s.drop_first()[i]).id
            != a.id by {
            assert(s.drop_first()[i] == s[i + 1]);
        }
        lemma_insert_get_round_trip(s.drop_first(), a);
        assert(s.push(a).drop_first() =~= s.drop_first().push(a));
        assert(s.push(a)[0] == s[0]);
    }
}

/// Update partiality: an update rewrites exactly the supplied fields of the
/// aimed-at row, never its identifier or publication time, leaves every
/// other row untouched, and with neither field supplied is a no-op.
pub proof fn lemma_update_partiality(
    s: Seq<ArticleImage>,
    id: Seq<char>,
    title: Option<Seq<char>>,
    content: Option<Seq<char>>,
)
    ensures
        spec_update(s, id, title, content).len() == s.len(),
        forall|i: int|
            0 <= i < s.len() ==> (#[trigger] spec_update(s, id, title, content)[i]).id == s[i].id,
        forall|i: int|
            0 <= i < s.len() ==> (#[trigger] spec_update(s, id, title, content)[i]).published
                == s[i].published,
        forall|i: int|
            0 <= i < s.len() && s[i].id != id ==> (#[trigger] spec_update(s, id, title, content)[i])
                == s[i],
        forall|i: int|
            0 <= i < s.len() && title is None ==> (#[trigger] spec_update(
                s,
                id,
                title,
                content,
            )[i]).title == s[i].title,
        forall|i: int|
            0 <= i < s.len() && content is None ==> (#[trigger] spec_update(
                s,
                id,
                title,
                content,
            )[i]).content == s[i].content,
        forall|i: int|
            0 <= i < s.len() && s[i].id == id && title is Some ==> (#[trigger] spec_update(
                s,
                id,
                title,
                content,
            )[i]).title == title->0,
        forall|i: int|
            0 <= i < s.len() && s[i].id == id && content is Some ==> (#[trigger] spec_update(
                s,
                id,
                title,
                content,
            )[i]).content == content->0,
        spec_update(s, id, None, None) == s,
{
    assert(spec_update(s, id, None, None) =~= s);
}

/// After a deletion the identifier is gone: a lookup by it reports nothing,
/// however often the deletion ran before.
pub proof fn lemma_delete_then_get(s: Seq<ArticleImage>, id: Seq<char>)
    ensures
        spec_get_by_id(spec_delete(s, id), id) is None,
{
    lemma_delete_clean(s, id);
    lemma_get_by_id_found(spec_delete(s, id), id);
}

/// Listing order: three rows published at strictly increasing times come
/// out of the ordered listing newest first, exactly the insertion order
/// reversed.
pub proof fn lemma_listing_order(
    r: Seq<ArticleImage>,
    a1: ArticleImage,
    a2: ArticleImage,
    a3: ArticleImage,
)
    requires
        sorted_by_published_desc(r),
        r.to_multiset() == seq![a1, a2, a3].to_multiset(),
        a1.published < a2.published,
        a2.published < a3.published,
    ensures
        r == seq![a3, a2, a1],
{
    let t = seq![a1, a2, a3];
    assert(r.to_multiset().len() == r.len());
    assert(t.to_multiset().len() == t.len());
    assert(r.len() == 3 && t.len() == 3);
    assert(t.contains(a1) && t.contains(a2) && t.contains(a3));
    assert(r.to_multiset().count(a1) > 0 && r.to_multiset().count(a2) > 0 && r.to_multiset().count(
        a3,
    ) > 0);
    assert(r.contains(a1) && r.contains(a2) && r.contains(a3));
    let i1 = choose|i: int| 0 <= i < r.len() && r[i] == a1;
    let i2 = choose|i: int| 0 <= i < r.len() && r[i] == a2;
    let i3 = choose|i: int| 0 <= i < r.len() && r[i] == a3;
    assert(i1 != i2 && i1 != i3 && i2 != i3);
    assert(i3 < i2) by {
        if i2 < i3 {
            assert(r[i2].published >= r[i3].published);
        }
    }
    assert(i2 < i1) by {
        if i1 < i2 {
            assert(r[i1].published >= r[i2].published);
        }
    }
    assert(i3 == 0 && i2 == 1 && i1 == 2);
    assert(r =~= seq![a3, a2, a1]);
}

/// A lookup succeeds exactly on a stored identifier, and returns the row
/// carrying it.
pub proof fn lemma_get_by_id_found(s: Seq<ArticleImage>, id: Seq<char>)
    ensures
        spec_get_by_id(s, id) is Some <==> contains_id(s, id),
        spec_get_by_id(s, id) matches Some(a) ==> a.id == id,
    decreases s.len(),
{
    if s.len() > 0 && s[0].id != id {
        lemma_get_by_id_found(s.drop_first(), id);
        assert(contains_id(s.drop_first(), id) ==> contains_id(s, id));
        if contains_id(s, id) {
            let i = choose|i: int| 0 <= i < s.len() && s[i].id == id;
            assert(s.drop_first()[i - 1].id == id);
        }
    }
}

} // verus!
