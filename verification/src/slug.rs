//! Slug derivation: the URL-safe form of an article title.
//!
//! A slug is computed character by character: whitespace becomes `_`,
//! alphanumeric characters and `-`, `.`, `_`, `~` pass through unchanged, and
//! every other character is dropped.

use vstd::prelude::*;

verus! {

use crate::text::string_from_chars;

/// Whether `char::is_alphanumeric` holds of a character above the ASCII
/// range; below it the classification is spelled out in `alnum_char`.
pub uninterp spec fn unicode_alnum(c: char) -> bool;

/// Whether `char::is_whitespace` holds of a character above the ASCII
/// range; below it the classification is spelled out in `space_char`.
pub uninterp spec fn unicode_space(c: char) -> bool;

/// ASCII letters and digits.
pub open spec fn ascii_alnum(c: char) -> bool {
    (97 <= c as u32 && c as u32 <= 122)  // 'a'..='z'
    || (65 <= c as u32 && c as u32 <= 90)  // 'A'..='Z'
    || (48 <= c as u32 && c as u32 <= 57)  // '0'..='9'
}

/// The characters `char::is_alphanumeric` accepts.
pub open spec fn alnum_char(c: char) -> bool {
    if (c as u32) < 128 {
        ascii_alnum(c)
    } else {
        unicode_alnum(c)
    }
}

/// The characters `char::is_whitespace` accepts.  Within ASCII these are
/// space, tab, line feed, vertical tab, form feed and carriage return.
pub open spec fn space_char(c: char) -> bool {
    if (c as u32) < 128 {
        c == ' ' || c == '\t' || c == '\n' || c == '\u{b}' || c == '\u{c}' || c == '\r'
    } else {
        unicode_space(c)
    }
}

/// The characters a slug keeps unchanged: alphanumerics and `-`, `.`, `_`, `~`.
pub open spec fn keep_char(c: char) -> bool {
    c == '-' || c == '.' || c == '_' || c == '~' || alnum_char(c)
}

/// What one title character contributes to the slug.
pub open spec fn slug_char(c: char) -> Seq<char> {
    if space_char(c) {
        seq!['_']
    } else if keep_char(c) {
        seq![c]
    } else {
        Seq::<char>::empty()
    }
}

/// The slug of a title: the concatenation of each character's contribution.
pub open spec fn slug_of(s: Seq<char>) -> Seq<char>
    decreases s.len(),
{
    if s.len() == 0 {
        Seq::<char>::empty()
    } else {
        slug_of(s.drop_last()) + slug_char(s.last())
    }
}

/// Relies on `char::is_whitespace`: true exactly of characters with the
/// Unicode `White_Space` property, which within ASCII are space, tab, line
/// feed, vertical tab, form feed and carriage return; beyond ASCII the
/// result is abstracted as `unicode_space`.
#[verifier::external_body]
fn char_is_whitespace(c: char) -> (r: bool)
    ensures
        r == space_char(c),
        (c as u32) >= 128 ==> r == unicode_space(c),
{
    c.is_whitespace()
}

/// Relies on `char::is_alphanumeric`: true exactly of Unicode alphabetic and
/// numeric characters, which within ASCII are the letters and digits; beyond
/// ASCII the result is abstracted as `unicode_alnum`.
#[verifier::external_body]
fn char_is_alphanumeric(c: char) -> (r: bool)
    ensures
        r == alnum_char(c),
        (c as u32) >= 128 ==> r == unicode_alnum(c),
{
    c.is_alphanumeric()
}

/// Appending one character to a title appends its contribution to the slug.
proof fn lemma_slug_of_snoc(s: Seq<char>, i: int)
    requires
        0 <= i < s.len(),
    ensures
        slug_of(s.take(i + 1)) == slug_of(s.take(i)) + slug_char(s[i]),
{
    assert(s.take(i + 1).drop_last() =~= s.take(i));
    assert(s.take(i + 1).last() == s[i]);
}

/// Maps a title to its URL-safe slug.
pub fn to_url(title: &str) -> (r: String)
    ensures
        r@ == slug_of(title@),
{
    let mut out: Vec<char> = Vec::new();
    for c in it: title.chars()
        invariant
            it.seq() == title@,
            out@ == slug_of(title@.take(it.index() as int)),
    {
        proof {
            lemma_slug_of_snoc(title@, it.index() as int);
        }
        if char_is_whitespace(c) {
            out.push('_');
        } else if c == '-' || c == '.' || c == '_' || c == '~' {
            out.push(c);
        } else if char_is_alphanumeric(c) {
            out.push(c);
        }
    }
    proof {
        assert(title@.take(title@.len() as int) =~= title@);
    }
    string_from_chars(&out)
}

/// Every character of a slug is one the slug alphabet keeps: an alphanumeric
/// character or one of `-`, `.`, `_`, `~`.  Together with `to_url`'s
/// postcondition `r@ == slug_of(title@)`, which makes the slug a function of
/// the title alone, this pins the character set of every derived URL.
pub proof fn lemma_slug_charset(s: Seq<char>)
    ensures
        forall|i: int| 0 <= i < slug_of(s).len() ==> keep_char(#[trigger] slug_of(s)[i]),
    decreases s.len(),
{
    if s.len() > 0 {
        lemma_slug_charset(s.drop_last());
        let pre = slug_of(s.drop_last());
        let tail = slug_char(s.last());
        assert forall|i: int| 0 <= i < slug_of(s).len() implies keep_char(
            #[trigger] slug_of(s)[i],
        ) by {
            if i < pre.len() {
                assert(slug_of(s)[i] == pre[i]);
            } else {
                assert(slug_of(s)[i] == tail[i - pre.len()]);
            }
        }
    }
}

/// A string already restricted to the ASCII slug alphabet is its own slug,
/// so slug derivation is idempotent once its output is in that alphabet.
pub proof fn lemma_slug_identity_on_slugs(s: Seq<char>)
    requires
        forall|i: int| 0 <= i < s.len() ==> ((#[trigger] s[i]) as u32) < 128 && keep_char(s[i]),
    ensures
        slug_of(s) == s,
    decreases s.len(),
{
    if s.len() > 0 {
        lemma_slug_identity_on_slugs(s.drop_last());
        assert(slug_of(s.drop_last()) + slug_char(s.last()) =~= s);
    } else {
        assert(slug_of(s) =~= s);
    }
}

/// Slugs of ASCII titles stay within ASCII.
pub proof fn lemma_slug_ascii(s: Seq<char>)
    requires
        forall|i: int| 0 <= i < s.len() ==> ((#[trigger] s[i]) as u32) < 128,
    ensures
        forall|i: int| 0 <= i < slug_of(s).len() ==> ((#[trigger] slug_of(s)[i]) as u32) < 128,
    decreases s.len(),
{
    if s.len() > 0 {
        lemma_slug_ascii(s.drop_last());
        let pre = slug_of(s.drop_last());
        let tail = slug_char(s.last());
        assert(s.last() == s[s.len() - 1]);
        assert forall|i: int| 0 <= i < slug_of(s).len() implies ((#[trigger] slug_of(
            s,
        )[i]) as u32) < 128 by {
            if i < pre.len() {
                assert(slug_of(s)[i] == pre[i]);
            } else {
                assert(slug_of(s)[i] == tail[i - pre.len()]);
            }
        }
    }
}

/// Slug derivation is idempotent on ASCII titles.
pub proof fn lemma_slug_idempotent(s: Seq<char>)
    requires
        forall|i: int| 0 <= i < s.len() ==> ((#[trigger] s[i]) as u32) < 128,
    ensures
        slug_of(slug_of(s)) == slug_of(s),
{
    lemma_slug_charset(s);
    lemma_slug_ascii(s);
    lemma_slug_identity_on_slugs(slug_of(s));
}

} // verus!
