//! Sender-address handling: extracting the domain portion of a `From`
//! address and the bearer token of an `Authorization` header value.

use vstd::prelude::*;
use vstd::string::StrSliceExecFns;
use vstd::string::StringExecFns;

use crate::text::find_char;
use crate::text::find_from;
use crate::trusted::lower_of;
use crate::trusted::lowercase;

verus! {

/// The part of `s` between the first `<` and the next `>` after it, if `s`
/// carries an angle-bracketed address; all of `s` when it has no `<`; and
/// nothing when a `<` is never closed.
pub open spec fn angle_inner(s: Seq<char>) -> Option<Seq<char>> {
    match find_from(s, '<', 0) {
        None => Some(s),
        Some(a) => match find_from(s, '>', a + 1) {
            None => None,
            Some(b) => Some(s.subrange(a + 1, b)),
        },
    }
}

/// The raw domain portion of an address: the characters after the first
/// `@` of the bare address, up to the next `@` or the end.
pub open spec fn domain_part(s: Seq<char>) -> Option<Seq<char>> {
    match angle_inner(s) {
        None => None,
        Some(inner) => match find_from(inner, '@', 0) {
            None => None,
            Some(at) => match find_from(inner, '@', at + 1) {
                None => Some(inner.subrange(at + 1, inner.len() as int)),
                Some(at2) => Some(inner.subrange(at + 1, at2)),
            },
        },
    }
}

/// The lowercased domain of an address, or nothing when no domain can be
/// parsed out of it.
pub open spec fn domain_of_addr(s: Seq<char>) -> Option<Seq<char>> {
    match domain_part(s) {
        None => None,
        Some(d) => Some(lower_of(d)),
    }
}

/// Extracts the lowercased domain of a sender address, handling both the
/// bare `user@domain` form and the display-name form `Name <user@domain>`.
pub fn extract_domain_from_addr(from: &str) -> (r: Option<String>)
    ensures
        match domain_of_addr(from@) {
            Some(d) => r is Some && r->0@ == d,
            None => r is None,
        },
{
    let len = from.unicode_len();
    let (inner_start, inner_end): (usize, usize) = match find_char(from, '<', 0) {
        Some(a) => match find_char(from, '>', a + 1) {
            Some(b) => (a + 1, b),
            None => {
                return None;
            },
        },
        None => (0, len),
    };
    proof {
        assert(from@.subrange(0, len as int) =~= from@);
        assert(angle_inner(from@) == Some(from@.subrange(inner_start as int, inner_end as int)));
    }
    let inner = from.substring_char(inner_start, inner_end);
    let at = match find_char(inner, '@', 0) {
        Some(k) => k,
        None => {
            return None;
        },
    };
    let dend = match find_char(inner, '@', at + 1) {
        Some(k) => k,
        None => inner.unicode_len(),
    };
    let part = inner.substring_char(at + 1, dend);
    Some(lowercase(part))
}

/// The token carried by an `Authorization` header value: the rest of the
/// value after a `Bearer ` prefix, or the whole value without one; nothing
/// when the header is absent.
pub open spec fn token_of_header(h: Option<Seq<char>>) -> Option<Seq<char>> {
    match h {
        None => None,
        Some(v) => if v.len() >= 7 && v.subrange(0, 7) == "Bearer "@ {
            Some(v.skip(7))
        } else {
            Some(v)
        },
    }
}

/// Extracts the bearer token from an `Authorization` header value,
/// stripping a `Bearer ` prefix when present.
pub fn extract_token(header: Option<&str>) -> (r: Option<String>)
    ensures
        match token_of_header(match header {
            Some(h) => Some(h@),
            None => None,
        }) {
            Some(t) => r is Some && r->0@ == t,
            None => r is None,
        },
{
    match header {
        None => None,
        Some(v) => {
            let len = v.unicode_len();
            if len >= 7 {
                let prefix = v.substring_char(0, 7);
                if crate::text::str_eq(prefix, "Bearer ") {
                    let rest = v.substring_char(7, len);
                    proof {
                        assert(v@.skip(7) =~= v@.subrange(7, v@.len() as int));
                    }
                    return Some(String::from_str(rest));
                }
            }
            Some(String::from_str(v))
        },
    }
}

} // verus!
