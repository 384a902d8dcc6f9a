//! Canonical forms of page addresses and email addresses.

use vstd::prelude::*;
use vstd::string::StringExecFns;
use super::digest::{hex_chars, hex_encode_upper, sha256, sha256_digest};
use super::status::Status;
use super::text::{
    chars_of, find_char, first_index, is_first_index, lemma_first_index, lowercase, to_lowercase,
};

verus! {

/// The part of `s` that stands before its first `?`.
pub open spec fn before_query(s: Seq<char>) -> Seq<char> {
    s.take(first_index(s, '?'))
}

/// The segments of a path joined by single separators: the characters of
/// `s` other than `/`, with one `/` wherever a run of them ends and another
/// begins.
pub open spec fn clean_segments(s: Seq<char>) -> Seq<char>
    decreases s.len(),
{
    if s.len() == 0 {
        Seq::empty()
    } else {
        let init = clean_segments(s.drop_last());
        let c = s.last();
        if c == '/' {
            init
        } else if s.len() >= 2 && s[s.len() - 2] == '/' && init.len() > 0 {
            init.push('/').push(c)
        } else {
            init.push(c)
        }
    }
}

/// Whether a page address names a page: something is left of what stands
/// before its query string once the empty segments are taken out.
pub open spec fn is_page(page: Seq<char>) -> bool {
    clean_segments(before_query(page)).len() > 0
}

/// The canonical form of a page address: what stands before the query
/// string, its segments joined by single separators, in lower case, between
/// two separators.
pub open spec fn normalized_page(page: Seq<char>) -> Seq<char> {
    seq!['/'] + lowercase(clean_segments(before_query(page))) + seq!['/']
}

/// The canonical form of an email address.
pub open spec fn normalized_email(raw_email: Seq<char>) -> Seq<char> {
    lowercase(raw_email)
}

/// The key under which an email address is known: the upper-case
/// hexadecimal SHA-256 digest of its canonical form.
pub open spec fn hashed_email(raw_email: Seq<char>) -> Seq<char> {
    hex_chars(sha256(vstd::utf8::encode_utf8(normalized_email(raw_email))), true)
}

/// Whether a path has no separator at its start and no two in a row.
pub open spec fn is_joined(s: Seq<char>) -> bool {
    &&& s.len() > 0 ==> s[0] != '/'
    &&& forall|i: int| 0 <= i < s.len() - 1 ==> !(s[i] == '/' && #[trigger] s[i + 1] == '/')
}

/// Joined segments start and end with a segment and hold no empty one.
pub proof fn lemma_clean_segments_shape(s: Seq<char>)
    ensures
        is_joined(clean_segments(s)),
        clean_segments(s).len() > 0 ==> clean_segments(s).last() != '/',
        clean_segments(s).len() <= 2 * s.len(),
    decreases s.len(),
{
    if s.len() > 0 {
        lemma_clean_segments_shape(s.drop_last());
    }
}

/// Cleaning changes nothing in a path that is already joined, but for
/// taking off one separator at its end.
pub proof fn lemma_clean_segments_of_joined(t: Seq<char>)
    requires
        is_joined(t),
    ensures
        clean_segments(t) == if t.len() > 0 && t.last() == '/' {
            t.drop_last()
        } else {
            t
        },
    decreases t.len(),
{
    if t.len() > 0 {
        let init = t.drop_last();
        let c = t.last();
        assert(is_joined(init)) by {
            assert forall|i: int| 0 <= i < init.len() - 1 implies !(init[i] == '/'
                && #[trigger] init[i + 1] == '/') by {
                assert(t[i + 1] == init[i + 1]);
            }
        }
        lemma_clean_segments_of_joined(init);
        if c == '/' {
            assert(init.len() > 0);
            assert(t[init.len() - 1 + 1] == '/');
            assert(init.last() != '/');
        } else if init.len() > 0 && init.last() == '/' {
            assert(init.len() >= 2) by {
                assert(init[0] != '/');
            }
            assert(init.drop_last().push('/').push(c) =~= t);
        } else {
            assert(init.push(c) =~= t);
        }
    }
}

/// Cleaning a path twice gives what cleaning it once gives.
pub proof fn lemma_clean_segments_idempotent(s: Seq<char>)
    ensures
        clean_segments(clean_segments(s)) == clean_segments(s),
{
    lemma_clean_segments_shape(s);
    lemma_clean_segments_of_joined(clean_segments(s));
}

/// A separator before a path changes nothing in what cleaning gives.
pub proof fn lemma_clean_segments_after_separator(t: Seq<char>)
    ensures
        clean_segments(seq!['/'] + t) == clean_segments(t),
    decreases t.len(),
{
    let s = seq!['/'] + t;
    if t.len() == 0 {
        assert(s.last() == '/');
        assert(s.drop_last() =~= Seq::<char>::empty());
        assert(clean_segments(s.drop_last()) == Seq::<char>::empty());
    } else {
        let init = t.drop_last();
        lemma_clean_segments_after_separator(init);
        assert(s.drop_last() =~= seq!['/'] + init);
        assert(clean_segments(s.drop_last()) == clean_segments(init));
        assert(s.last() == t.last());
        if t.len() >= 2 {
            assert(s[s.len() - 2] == t[t.len() - 2]);
        } else {
            assert(init =~= Seq::<char>::empty());
            assert(clean_segments(init) == Seq::<char>::empty());
        }
    }
}

/// What is taken of lower-casing for a cleaned path: it keeps the path
/// cleaned. The lower-case form of the path is not changed by
/// lower-casing it again, holds no query mark, has its separators between
/// segments only, and is empty only where the path is.
pub open spec fn lower_casing_keeps_clean(path: Seq<char>) -> bool {
    let lower = lowercase(path);
    &&& lowercase(lower) == lower
    &&& !lower.contains('?')
    &&& is_joined(lower)
    &&& lower.len() > 0 ==> lower.last() != '/'
    &&& path.len() > 0 ==> lower.len() > 0
}

/// Normalizing twice gives what normalizing once gives, and what names a
/// page still names one, where lower-casing keeps the cleaned path of the
/// page cleaned.
pub proof fn lemma_normalized_page_idempotent(page: Seq<char>)
    requires
        lower_casing_keeps_clean(clean_segments(before_query(page))),
    ensures
        normalized_page(normalized_page(page)) == normalized_page(page),
        is_page(page) ==> is_page(normalized_page(page)),
{
    let lower = lowercase(clean_segments(before_query(page)));
    let once = normalized_page(page);
    let inner = lower + seq!['/'];
    assert(once =~= seq!['/'] + inner);
    // No query mark stands in the canonical form.
    lemma_first_index(once, '?');
    assert forall|j: int| 0 <= j < once.len() implies once[j] != '?' by {
        if 0 < j && j <= lower.len() {
            assert(once[j] == lower[j - 1]);
            assert(lower.contains(lower[j - 1]));
        }
    }
    assert(is_first_index(once, '?', once.len() as int));
    assert(before_query(once) =~= once);
    // Cleaning it gives back the lower-case path.
    lemma_clean_segments_after_separator(inner);
    if lower.len() > 0 {
        assert(is_joined(inner)) by {
            assert forall|i: int| 0 <= i < inner.len() - 1 implies !(inner[i] == '/'
                && #[trigger] inner[i + 1] == '/') by {
                if i + 1 < lower.len() {
                    assert(lower[i + 1] == inner[i + 1]);
                }
            }
        }
        lemma_clean_segments_of_joined(inner);
        assert(inner.last() == '/');
        assert(inner.drop_last() =~= lower);
    } else {
        assert(inner.last() == '/');
        assert(inner.drop_last() =~= Seq::<char>::empty());
        assert(clean_segments(inner.drop_last()) == Seq::<char>::empty());
        assert(lower =~= Seq::<char>::empty());
    }
    assert(clean_segments(once) == clean_segments(inner));
    assert(clean_segments(inner) == lower);
    assert(normalized_page(once) == seq!['/'] + lowercase(lower) + seq!['/']);
}

/// Brings a page address to its canonical form. Two addresses that differ
/// only in their query string, in letter case or in empty segments get the
/// same form. An address that names no page, because nothing but
/// separators stands before its query string, is turned down.
pub fn page_url(page: &str) -> (normalized: Result<String, Status>)
    ensures
        normalized is Ok == is_page(page@),
        normalized is Ok ==> normalized->Ok_0@ == normalized_page(page@),
        normalized is Err ==> normalized->Err_0 == Status::BadRequest,
{
    let chars = chars_of(page);
    let end = find_char(chars.as_slice(), '?', 0);
    proof {
        lemma_first_index(chars@, '?');
        assert(is_first_index(chars@, '?', end as int));
    }
    let ghost path = chars@.take(end as int);
    let mut cleaned = String::new();
    let mut started = false;
    let mut i: usize = 0;
    while i < end
        invariant
            0 <= i <= end <= chars@.len(),
            path == chars@.take(end as int),
            cleaned@ == clean_segments(path.take(i as int)),
            started == (cleaned@.len() > 0),
        decreases end - i,
    {
        let c = chars[i];
        proof {
            let t = path.take(i as int + 1);
            assert(t.drop_last() =~= path.take(i as int));
            assert(t.last() == c);
            if i > 0 {
                assert(t[t.len() - 2] == chars@[i as int - 1]);
            }
        }
        if c != '/' {
            if i > 0 && chars[i - 1] == '/' && started {
                cleaned.push('/');
            }
            cleaned.push(c);
            started = true;
        }
        i = i + 1;
    }
    assert(path.take(i as int) =~= path);
    if !started {
        return Err(Status::BadRequest);
    }
    let lower = to_lowercase(cleaned.as_str());
    proof {
        reveal_strlit("/");
    }
    let mut normalized = String::from_str("/");
    normalized.append(lower.as_str());
    normalized.append("/");
    assert(normalized@ =~= normalized_page(page@));
    Ok(normalized)
}

/// Brings an email address to its canonical form.
pub fn email(raw_email: &str) -> (normalized: String)
    ensures
        normalized@ == normalized_email(raw_email@),
{
    to_lowercase(raw_email)
}

/// The key under which an email address is known.
pub fn email_hash(raw_email: &str) -> (hash: String)
    ensures
        hash@ == hashed_email(raw_email@),
        hash@.len() == 64,
{
    let email_normalized = email(raw_email);
    let digest = sha256_digest(email_normalized.as_str().as_bytes());
    hex_encode_upper(digest.as_slice())
}

} // verus!
