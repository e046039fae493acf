//! The secret store: opaque bearer credentials with an optional description.
//!
//! Any row present in the store is a valid credential; absence means
//! invalid.  Tokens are shown exactly once, at creation; listings carry only
//! identifier and description.

use rand::distributions::{Alphanumeric, DistString};
use vstd::prelude::*;

verus! {

use crate::slug::ascii_alnum;
use crate::store::opt_text;

/// One credential row.
pub struct Secret {
    pub id: i64,
    pub secret: String,
    pub description: Option<String>,
}

/// The mathematical image of a credential row.
pub struct SecretImage {
    pub id: int,
    pub secret: Seq<char>,
    pub description: Option<Seq<char>>,
}

impl View for Secret {
    type V = SecretImage;

    open spec fn view(&self) -> SecretImage {
        SecretImage {
            id: self.id as int,
            secret: self.secret@,
            description: opt_text(self.description),
        }
    }
}

/// Whether some row carries exactly this token.
pub open spec fn spec_is_valid(s: Seq<SecretImage>, token: Seq<char>) -> bool {
    exists|i: int| 0 <= i < s.len() && s[i].secret == token
}

/// The rows left after revoking every row with the identifier.
pub open spec fn spec_revoke(s: Seq<SecretImage>, id: int) -> Seq<SecretImage>
    decreases s.len(),
{
    if s.len() == 0 {
        Seq::<SecretImage>::empty()
    } else {
        let rest = spec_revoke(s.drop_last(), id);
        if s.last().id == id {
            rest
        } else {
            rest.push(s.last())
        }
    }
}

/// Relies on rand's `Alphanumeric` distribution and
/// `DistString::sample_string`: 64 characters drawn uniformly from `a-z`,
/// `A-Z` and `0-9`.  The token is random, so nothing beyond its length and
/// alphabet is promised.
#[verifier::external_body]
fn random_token() -> (r: String)
    ensures
        r@.len() == 64,
        forall|i: int| 0 <= i < r@.len() ==> ascii_alnum(#[trigger] r@[i]),
{
    Alphanumeric.sample_string(&mut rand::thread_rng(), 64)
}

/// The credential store: rows plus the next identifier to assign.
pub struct SecretStore {
    secrets: Vec<Secret>,
    next_id: i64,
}

impl View for SecretStore {
    type V = Seq<SecretImage>;

    closed spec fn view(&self) -> Seq<SecretImage> {
        self.secrets@.map_values(|s: Secret| s@)
    }
}

impl SecretStore {
    /// The identifier the next created credential will receive.
    pub closed spec fn next(&self) -> int {
        self.next_id as int
    }

    /// The store invariant: identifiers are distinct and below the next one
    /// to assign, so a created credential never reuses an identifier.
    pub open spec fn wf(&self) -> bool {
        &&& forall|i: int, j: int|
            0 <= i < self@.len() && 0 <= j < self@.len() && i != j ==> self@[i].id != self@[j].id
        &&& forall|i: int| 0 <= i < self@.len() ==> (#[trigger] self@[i].id) < self.next()
        &&& 1 <= self.next()
    }

    /// An empty store; credentials will be numbered from one upward.
    pub fn new() -> (r: SecretStore)
        ensures
            r@ == Seq::<SecretImage>::empty(),
            r.wf(),
            r.next() == 1,
    {
        let r = SecretStore { secrets: Vec::new(), next_id: 1 };
        proof {
            assert(r@ =~= Seq::<SecretImage>::empty());
        }
        r
    }

    /// Whether another identifier can still be assigned, which `create`
    /// requires.
    pub fn has_free_id(&self) -> (r: bool)
        ensures
            r == (self.next() < i64::MAX),
    {
        self.next_id < i64::MAX
    }

    /// Generates a random 64-character alphanumeric token, persists it with
    /// the description under a fresh identifier, and returns the plaintext
    /// token — the one time it is ever shown.
    pub fn create(&mut self, description: Option<String>) -> (r: String)
        requires
            old(self).wf(),
            old(self).next() < i64::MAX,
        ensures
            final(self).wf(),
            r@.len() == 64,
            forall|i: int| 0 <= i < r@.len() ==> ascii_alnum(#[trigger] r@[i]),
            final(self)@ == old(self)@.push(
                (SecretImage {
                    id: old(self).next(),
                    secret: r@,
                    description: opt_text(description),
                }),
            ),
            final(self).next() == old(self).next() + 1,
    {
        let token = random_token();
        let dup = token.clone();
        let row = Secret { id: self.next_id, secret: token, description };
        proof {
            assert(self.secrets@.push(row).map_values(|s: Secret| s@) =~= self@.push(row@));
        }
        self.secrets.push(row);
        self.next_id = self.next_id + 1;
        dup
    }

    /// Identifier and description of every credential, in store order; the
    /// token values are never listed.
    pub fn list(&self) -> (r: Vec<(i64, Option<String>)>)
        ensures
            r@.len() == self@.len(),
            forall|i: int|
                0 <= i < self@.len() ==> (#[trigger] r@[i]).0 as int == self@[i].id && opt_text(
                    r@[i].1,
                ) == self@[i].description,
    {
        let mut r: Vec<(i64, Option<String>)> = Vec::new();
        let mut j: usize = 0;
        while j < self.secrets.len()
            invariant
                j <= self.secrets.len(),
                self@ == self.secrets@.map_values(|s: Secret| s@),
                r@.len() == j,
                forall|i: int|
                    0 <= i < j ==> (#[trigger] r@[i]).0 as int == self@[i].id && opt_text(r@[i].1)
                        == self@[i].description,
            decreases self.secrets.len() - j,
        {
            let s = &self.secrets[j];
            let d: Option<String> = match s.description.as_ref() {
                Some(t) => Some(t.clone()),
                None => None,
            };
            r.push((s.id, d));
            j += 1;
        }
        r
    }

    /// Revokes every credential with this identifier; revoking an absent
    /// identifier succeeds silently.
    pub fn revoke(&mut self, id: i64)
        requires
            old(self).wf(),
        ensures
            final(self).wf(),
            final(self)@ == spec_revoke(old(self)@, id as int),
            final(self).next() == old(self).next(),
    {
        let ghost s = self@;
        let mut out: Vec<Secret> = Vec::new();
        let mut j: usize = 0;
        proof {
            assert(s.take(0) =~= Seq::<SecretImage>::empty());
            assert(out@.map_values(|x: Secret| x@) =~= Seq::<SecretImage>::empty());
        }
        while j < self.secrets.len()
            invariant
                j <= self.secrets.len(),
                s == self@,
                self@ == self.secrets@.map_values(|x: Secret| x@),
                out@.map_values(|x: Secret| x@) == spec_revoke(s.take(j as int), id as int),
            decreases self.secrets.len() - j,
        {
            proof {
                assert(s.take(j + 1).drop_last() =~= s.take(j as int));
                assert(s.take(j + 1).last() == s[j as int]);
            }
            if !(self.secrets[j].id == id) {
                let row = &self.secrets[j];
                let d: Option<String> = match row.description.as_ref() {
                    Some(t) => Some(t.clone()),
                    None => None,
                };
                let dup = Secret { id: row.id, secret: row.secret.clone(), description: d };
                proof {
                    assert(dup@ == s[j as int]);
                    assert(out@.push(dup).map_values(|x: Secret| x@) =~= out@.map_values(
                        |x: Secret| x@,
                    ).push(s[j as int]));
                }
                out.push(dup);
            }
            j += 1;
        }
        proof {
            assert(s.take(s.len() as int) =~= s);
            lemma_revoke_keeps(s, id as int);
            lemma_revoke_unique(s, id as int);
        }
        self.secrets = out;
    }

    /// Whether this exact token is a stored credential: a case-sensitive
    /// existence check, performed against the store on every call.
    pub fn is_valid(&self, token: &String) -> (r: bool)
        ensures
            r == spec_is_valid(self@, token@),
    {
        let mut j: usize = 0;
        while j < self.secrets.len()
            invariant
                j <= self.secrets.len(),
                self@ == self.secrets@.map_values(|x: Secret| x@),
                forall|k: int| 0 <= k < j ==> self@[k].secret != token@,
            decreases self.secrets.len() - j,
        {
            if self.secrets[j].secret == *token {
                assert(self@[j as int].secret == token@);
                return true;
            }
            j += 1;
        }
        false
    }
}

/// Every row revocation keeps was already present beforehand, and none of
/// them carries the revoked identifier.
proof fn lemma_revoke_keeps(s: Seq<SecretImage>, id: int)
    ensures
        forall|i: int|
            0 <= i < spec_revoke(s, id).len() ==> exists|j: int|
                0 <= j < s.len() && #[trigger] spec_revoke(s, id)[i] == s[j],
        forall|i: int| 0 <= i < spec_revoke(s, id).len() ==> (#[trigger] spec_revoke(s, id)[i]).id != id,
    decreases s.len(),
{
    if s.len() > 0 {
        lemma_revoke_keeps(s.drop_last(), id);
        let rest = spec_revoke(s.drop_last(), id);
        assert forall|i: int| 0 <= i < spec_revoke(s, id).len() implies exists|j: int|
            0 <= j < s.len() && #[trigger] spec_revoke(s, id)[i] == s[j] by {
            if i < rest.len() {
                let j = choose|j: int| 0 <= j < s.drop_last().len() && rest[i] == s.drop_last()[j];
                assert(spec_revoke(s, id)[i] == s[j]);
            } else {
                assert(spec_revoke(s, id)[i] == s[s.len() - 1]);
            }
        }
    }
}

/// Revocation preserves the distinctness of identifiers.
proof fn lemma_revoke_unique(s: Seq<SecretImage>, id: int)
    requires
        forall|i: int, j: int| 0 <= i < s.len() && 0 <= j < s.len() && i != j ==> s[i].id != s[j].id,
    ensures
        forall|i: int, j: int|
            0 <= i < spec_revoke(s, id).len() && 0 <= j < spec_revoke(s, id).len() && i != j
                ==> spec_revoke(s, id)[i].id != spec_revoke(s, id)[j].id,
    decreases s.len(),
{
    if s.len() > 0 {
        lemma_revoke_unique(s.drop_last(), id);
        lemma_revoke_keeps(s.drop_last(), id);
        let rest = spec_revoke(s.drop_last(), id);
        if s.last().id != id {
            assert forall|i: int, j: int|
                0 <= i < rest.push(s.last()).len() && 0 <= j < rest.push(s.last()).len() && i
                    != j implies rest.push(s.last())[i].id != rest.push(s.last())[j].id by {
                if i < rest.len() && j < rest.len() {
                } else {
                    let k = if i < rest.len() {
                        i
                    } else {
                        j
                    };
                    let m = choose|m: int|
                        0 <= m < s.drop_last().len() && rest[k] == s.drop_last()[m];
                    assert(s[m].id != s[s.len() - 1].id);
                }
            }
        }
    }
}

} // verus!
