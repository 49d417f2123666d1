//! URL equivalence for redirect detection.
//!
//! After a download, the landed URL is compared with the requested one.
//! The comparison ignores the scheme and every ASCII punctuation
//! character, and folds ASCII letter case, so that `http://Ex.com/a`
//! and `https://ex.com/a!` count as the same page while a different
//! host or path does not.

use vstd::prelude::*;

verus! {

/// The text after the first `://`, or the whole text when none occurs.
pub open spec fn scheme_split(s: Seq<char>) -> Option<Seq<char>>
    decreases s.len(),
{
    if s.len() < 3 {
        None
    } else if s[0] == ':' && s[1] == '/' && s[2] == '/' {
        Some(s.subrange(3, s.len() as int))
    } else {
        scheme_split(s.drop_first())
    }
}

pub open spec fn without_scheme(s: Seq<char>) -> Seq<char> {
    match scheme_split(s) {
        Some(t) => t,
        None => s,
    }
}

/// Characters that count when two URLs are compared: ASCII letters and
/// digits, and every character beyond ASCII.
pub open spec fn url_char_kept(c: char) -> bool {
    ('0' <= c && c <= '9') || ('a' <= c && c <= 'z') || ('A' <= c && c <= 'Z') || c as u32 >= 128
}

/// The code point that stands for `c`, with ASCII letters folded to
/// lower case.
pub open spec fn url_char_canon(c: char) -> u32 {
    if 'A' <= c && c <= 'Z' {
        (c as u32 + 32) as u32
    } else {
        c as u32
    }
}

/// The canonical form of a URL tail: kept characters, case-folded.
pub open spec fn canon_url_chars(s: Seq<char>) -> Seq<u32>
    decreases s.len(),
{
    if s.len() == 0 {
        Seq::empty()
    } else if url_char_kept(s[0]) {
        seq![url_char_canon(s[0])] + canon_url_chars(s.drop_first())
    } else {
        canon_url_chars(s.drop_first())
    }
}

/// Two URLs name the same page for redirect detection.
pub open spec fn spec_urls_equivalent(a: Seq<char>, b: Seq<char>) -> bool {
    canon_url_chars(without_scheme(a)) == canon_url_chars(without_scheme(b))
}

/// Character position right after the first `://`, or zero when none
/// occurs.
fn scheme_end(s: &str) -> (r: usize)
    ensures
        scheme_split(s@) is Some ==> r <= s@.len() && s@.subrange(r as int, s@.len() as int)
            == scheme_split(s@).unwrap(),
        scheme_split(s@) is None ==> r == 0,
{
    let len = s.unicode_len();
    if len < 3 {
        proof {
            assert(scheme_split(s@) is None);
        }
        return 0;
    }
    let mut i: usize = 0;
    proof {
        assert(s@.skip(0) =~= s@);
    }
    while i <= len - 3
        invariant
            3 <= len,
            len == s@.len(),
            i <= len - 2,
            scheme_split(s@) == scheme_split(s@.skip(i as int)),
        decreases len - i,
    {
        proof {
            assert(s@.skip(i as int).len() == len - i >= 3);
            assert(s@.skip(i as int)[0] == s@[i as int]);
            assert(s@.skip(i as int)[1] == s@[i as int + 1]);
            assert(s@.skip(i as int)[2] == s@[i as int + 2]);
        }
        if s.get_char(i) == ':' && s.get_char(i + 1) == '/' && s.get_char(i + 2) == '/' {
            proof {
                let t = s@.skip(i as int);
                assert(scheme_split(t) == Some(t.subrange(3, t.len() as int)));
                assert(t.subrange(3, t.len() as int) =~= s@.subrange(
                    i as int + 3,
                    s@.len() as int,
                ));
            }
            return i + 3;
        }
        proof {
            assert(s@.skip(i as int).drop_first() =~= s@.skip(i as int + 1));
        }
        i = i + 1;
    }
    proof {
        assert(s@.skip(i as int).len() < 3);
        assert(scheme_split(s@.skip(i as int)) is None);
    }
    0
}

/// The canonical code points of `s` from character position `start` on.
fn canon_from(s: &str, start: usize) -> (r: Vec<u32>)
    requires
        start <= s@.len(),
    ensures
        r@ == canon_url_chars(s@.subrange(start as int, s@.len() as int)),
{
    let len = s.unicode_len();
    let ghost tail = s@.subrange(start as int, s@.len() as int);
    let mut r: Vec<u32> = Vec::new();
    let mut i: usize = start;
    proof {
        assert(tail.skip(0) =~= tail);
        assert(r@ + canon_url_chars(tail) =~= canon_url_chars(tail));
    }
    while i < len
        invariant
            start <= i <= len,
            len == s@.len(),
            tail == s@.subrange(start as int, s@.len() as int),
            canon_url_chars(tail) == r@ + canon_url_chars(tail.skip(i - start as int)),
        decreases len - i,
    {
        let c = s.get_char(i);
        proof {
            let rest = tail.skip(i - start as int);
            assert(rest[0] == tail[i - start as int]);
            assert(tail[i - start as int] == s@[i as int]);
            assert(rest.drop_first() =~= tail.skip(i + 1 - start as int));
        }
        if ('0' <= c && c <= '9') || ('a' <= c && c <= 'z') || ('A' <= c && c <= 'Z') || c as u32
            >= 128 {
            let mapped = if 'A' <= c && c <= 'Z' {
                c as u32 + 32
            } else {
                c as u32
            };
            r.push(mapped);
            proof {
                assert(r@ =~= r@.drop_last() + seq![mapped]);
                assert(r@.drop_last() + (seq![url_char_canon(c)] + canon_url_chars(
                    tail.skip(i + 1 - start as int),
                )) =~= r@ + canon_url_chars(tail.skip(i + 1 - start as int)));
            }
        }
        i = i + 1;
    }
    proof {
        assert(tail.skip(len - start as int) =~= Seq::<char>::empty());
        assert(r@ + canon_url_chars(Seq::<char>::empty()) =~= r@);
    }
    r
}

/// Redirect check: whether two URLs differ only in scheme, ASCII
/// punctuation or ASCII letter case.
pub fn urls_equivalent(a: &str, b: &str) -> (r: bool)
    ensures
        r == spec_urls_equivalent(a@, b@),
{
    let sa = scheme_end(a);
    let sb = scheme_end(b);
    let ca = canon_from(a, sa);
    let cb = canon_from(b, sb);
    proof {
        if scheme_split(a@) is None {
            assert(a@.subrange(sa as int, a@.len() as int) =~= without_scheme(a@));
        }
        if scheme_split(b@) is None {
            assert(b@.subrange(sb as int, b@.len() as int) =~= without_scheme(b@));
        }
    }
    if ca.len() != cb.len() {
        return false;
    }
    let mut i: usize = 0;
    while i < ca.len()
        invariant
            ca@.len() == cb@.len(),
            i <= ca@.len(),
            ca@ == canon_url_chars(without_scheme(a@)),
            cb@ == canon_url_chars(without_scheme(b@)),
            forall|t: int| 0 <= t < i ==> ca@[t] == cb@[t],
        decreases ca@.len() - i,
    {
        if ca[i] != cb[i] {
            return false;
        }
        i = i + 1;
    }
    proof {
        assert(ca@ =~= cb@);
    }
    true
}

} // verus!
