//! The domain directory: the registry of tenant domains and the bearer
//! token bound to each.
//!
//! A domain is stored lowercased and trimmed, holds a token that never
//! changes, and is removed only by an explicit deletion, which immediately
//! stops its token from authorizing anything.

use vstd::prelude::*;
use vstd::string::StrSliceExecFns;
use vstd::string::StringExecFns;

use crate::errors::ApiError;
use crate::errors::ErrorKind;
use crate::text::find_char;
use crate::text::find_from;
use crate::text::lemma_lex_total;
use crate::text::lemma_lex_trans;
use crate::text::lex_lt;
use crate::text::str_eq;
use crate::text::str_lt;
use crate::text::trim;
use crate::text::trim_spec;
use crate::trusted::fresh_uuid;
use crate::trusted::lower_of;
use crate::trusted::lowercase;

verus! {

/// One registered domain with its bearer token.
#[derive(Debug)]
pub struct DomainRow {
    pub domain: String,
    pub token: String,
    pub created_at: i64,
}

/// What a registration call answers: the normalized domain and its token.
#[derive(Debug)]
pub struct DomainResponse {
    pub domain: String,
    pub token: String,
}

/// One entry of a directory listing.
#[derive(Debug)]
pub struct DomainListEntry {
    pub domain: String,
    pub created_at: i64,
}

/// A registrable domain: nonempty and holding at least one dot.
pub open spec fn valid_domain(s: Seq<char>) -> bool {
    s.len() > 0 && find_from(s, '.', 0) is Some
}

/// First row at or after `i` whose domain is `d`.
pub open spec fn lookup_domain_from(rows: Seq<DomainRow>, d: Seq<char>, i: int) -> Option<
    DomainRow,
>
    decreases rows.len() - i,
{
    if i < 0 || i >= rows.len() {
        None
    } else if rows[i].domain@ == d {
        Some(rows[i])
    } else {
        lookup_domain_from(rows, d, i + 1)
    }
}

/// The row registered for domain `d`, if any.
pub open spec fn lookup_domain(rows: Seq<DomainRow>, d: Seq<char>) -> Option<DomainRow> {
    lookup_domain_from(rows, d, 0)
}

/// First row at or after `i` whose token is `t`.
pub open spec fn lookup_token_from(rows: Seq<DomainRow>, t: Seq<char>, i: int) -> Option<DomainRow>
    decreases rows.len() - i,
{
    if i < 0 || i >= rows.len() {
        None
    } else if rows[i].token@ == t {
        Some(rows[i])
    } else {
        lookup_token_from(rows, t, i + 1)
    }
}

/// The row whose token is `t`, if any.
pub open spec fn lookup_token(rows: Seq<DomainRow>, t: Seq<char>) -> Option<DomainRow> {
    lookup_token_from(rows, t, 0)
}

/// No two rows share a token.
pub open spec fn tokens_unique(rows: Seq<DomainRow>) -> bool {
    forall|i: int, j: int|
        0 <= i < j < rows.len() ==> rows[i].token@ != rows[j].token@
}

/// Rows are strictly ascending by domain name, so no two share a domain.
pub open spec fn domains_sorted(rows: Seq<DomainRow>) -> bool {
    forall|i: int, j: int|
        0 <= i < j < rows.len() ==> lex_lt(rows[i].domain@, rows[j].domain@)
}

/// A found lookup names a row of the sequence; a failed one means no row
/// carries the domain.
pub proof fn lemma_lookup_domain_char(rows: Seq<DomainRow>, d: Seq<char>, i: int)
    requires
        0 <= i <= rows.len(),
    ensures
        match lookup_domain_from(rows, d, i) {
            Some(r) => exists|j: int| i <= j < rows.len() && rows[j] == r && r.domain@ == d,
            None => forall|j: int| i <= j < rows.len() ==> rows[j].domain@ != d,
        },
    decreases rows.len() - i,
{
    if i < rows.len() && rows[i].domain@ != d {
        lemma_lookup_domain_char(rows, d, i + 1);
    }
}

/// As [`lemma_lookup_domain_char`], for tokens.
pub proof fn lemma_lookup_token_char(rows: Seq<DomainRow>, t: Seq<char>, i: int)
    requires
        0 <= i <= rows.len(),
    ensures
        match lookup_token_from(rows, t, i) {
            Some(r) => exists|j: int| i <= j < rows.len() && rows[j] == r && r.token@ == t,
            None => forall|j: int| i <= j < rows.len() ==> rows[j].token@ != t,
        },
    decreases rows.len() - i,
{
    if i < rows.len() && rows[i].token@ != t {
        lemma_lookup_token_char(rows, t, i + 1);
    }
}

proof fn lookup_domain_present_from(rows: Seq<DomainRow>, j: int, i: int)
    requires
        0 <= i <= j < rows.len(),
        forall|m: int| i <= m < j ==> rows[m].domain@ != rows[j].domain@,
    ensures
        lookup_domain_from(rows, rows[j].domain@, i) == Some(rows[j]),
    decreases j - i,
{
    if i < j {
        lookup_domain_present_from(rows, j, i + 1);
    }
}

/// When no earlier row shares its domain, row `j` is what a lookup of its
/// domain finds.
pub proof fn lemma_lookup_domain_present(rows: Seq<DomainRow>, j: int)
    requires
        0 <= j < rows.len(),
        forall|m: int| 0 <= m < j ==> rows[m].domain@ != rows[j].domain@,
    ensures
        lookup_domain(rows, rows[j].domain@) == Some(rows[j]),
{
    lookup_domain_present_from(rows, j, 0);
}

proof fn lookup_token_present_from(rows: Seq<DomainRow>, j: int, i: int)
    requires
        0 <= i <= j < rows.len(),
        forall|m: int| i <= m < j ==> rows[m].token@ != rows[j].token@,
    ensures
        lookup_token_from(rows, rows[j].token@, i) == Some(rows[j]),
    decreases j - i,
{
    if i < j {
        lookup_token_present_from(rows, j, i + 1);
    }
}

/// When no earlier row shares its token, row `j` is what a lookup of its
/// token finds.
pub proof fn lemma_lookup_token_present(rows: Seq<DomainRow>, j: int)
    requires
        0 <= j < rows.len(),
        forall|m: int| 0 <= m < j ==> rows[m].token@ != rows[j].token@,
    ensures
        lookup_token(rows, rows[j].token@) == Some(rows[j]),
{
    lookup_token_present_from(rows, j, 0);
}

/// How a successful registration changes the directory: one new row, found
/// under its domain and under its token, with every other lookup answered
/// as before.
pub open spec fn registered_post(
    old_rows: Seq<DomainRow>,
    new_rows: Seq<DomainRow>,
    d: Seq<char>,
    t: Seq<char>,
    ts: i64,
) -> bool {
    &&& new_rows.len() == old_rows.len() + 1
    &&& match lookup_domain(new_rows, d) {
        Some(row) => row.domain@ == d && row.token@ == t && row.created_at == ts,
        None => false,
    }
    &&& forall|x: Seq<char>| x != d ==> lookup_domain(new_rows, x) == lookup_domain(old_rows, x)
    &&& match lookup_token(new_rows, t) {
        Some(row) => row.domain@ == d,
        None => false,
    }
    &&& forall|x: Seq<char>| x != t ==> lookup_token(new_rows, x) == lookup_token(old_rows, x)
}

/// The registry of domains, kept sorted by domain name.
#[derive(Debug)]
pub struct DomainDirectory {
    pub rows: Vec<DomainRow>,
}

impl DomainDirectory {
    /// Domains strictly sorted (hence unique), tokens unique, every stored
    /// domain valid.
    pub open spec fn wf(self) -> bool {
        &&& domains_sorted(self.rows@)
        &&& tokens_unique(self.rows@)
        &&& forall|i: int| 0 <= i < self.rows@.len() ==> valid_domain(#[trigger] self.rows@[i].domain@)
    }

    /// An empty directory.
    pub fn new() -> (r: DomainDirectory)
        ensures
            r.wf(),
            r.rows@.len() == 0,
    {
        DomainDirectory { rows: Vec::new() }
    }

    fn find_domain_idx(&self, d: &str) -> (r: Option<usize>)
        ensures
            match r {
                Some(i) => i < self.rows@.len() && self.rows@[i as int].domain@ == d@
                    && lookup_domain(self.rows@, d@) == Some(self.rows@[i as int]),
                None => lookup_domain(self.rows@, d@) is None,
            },
    {
        let mut i: usize = 0;
        while i < self.rows.len()
            invariant
                0 <= i <= self.rows@.len(),
                lookup_domain(self.rows@, d@) == lookup_domain_from(self.rows@, d@, i as int),
            decreases self.rows@.len() - i,
        {
            if str_eq(self.rows[i].domain.as_str(), d) {
                return Some(i);
            }
            i = i + 1;
        }
        None
    }

    fn find_token_idx(&self, t: &str) -> (r: Option<usize>)
        ensures
            match r {
                Some(i) => i < self.rows@.len() && self.rows@[i as int].token@ == t@
                    && lookup_token(self.rows@, t@) == Some(self.rows@[i as int]),
                None => lookup_token(self.rows@, t@) is None,
            },
    {
        let mut i: usize = 0;
        while i < self.rows.len()
            invariant
                0 <= i <= self.rows@.len(),
                lookup_token(self.rows@, t@) == lookup_token_from(self.rows@, t@, i as int),
            decreases self.rows@.len() - i,
        {
            if str_eq(self.rows[i].token.as_str(), t) {
                return Some(i);
            }
            i = i + 1;
        }
        None
    }

    /// Registers `name` (trimmed, lowercased) under the given token.
    ///
    /// Fails with `Validation` when the normalized name is empty or
    /// dotless, and with `Conflict` when the domain — or the token — is
    /// already taken; nothing changes on failure.
    pub fn register_with_token(&mut self, name: &str, token: String, now: i64) -> (r: Result<
        DomainResponse,
        ApiError,
    >)
        requires
            old(self).wf(),
        ensures
            final(self).wf(),
            ({
                let norm = lower_of(trim_spec(name@));
                &&& !valid_domain(norm) ==> (r matches Err(e) && e.kind == ErrorKind::Validation
                    && *final(self) == *old(self))
                &&& valid_domain(norm) && lookup_domain(old(self).rows@, norm) is Some ==> (
                r matches Err(e) && e.kind == ErrorKind::Conflict && *final(self) == *old(self))
                &&& valid_domain(norm) && lookup_domain(old(self).rows@, norm) is None && lookup_token(
                    old(self).rows@,
                    token@,
                ) is Some ==> (r matches Err(e) && e.kind == ErrorKind::Conflict && *final(self)
                    == *old(self))
                &&& valid_domain(norm) && lookup_domain(old(self).rows@, norm) is None
                    && lookup_token(old(self).rows@, token@) is None ==> (r matches Ok(resp)
                    && resp.domain@ == norm && resp.token@ == token@ && registered_post(
                    old(self).rows@,
                    final(self).rows@,
                    norm,
                    token@,
                    now,
                ))
            }),
    {
        let trimmed = trim(name);
        let norm = lowercase(trimmed.as_str());
        let empty = norm.as_str().unicode_len() == 0;
        let dotless = match find_char(norm.as_str(), '.', 0) {
            Some(_) => false,
            None => true,
        };
        if empty || dotless {
            return Err(ApiError::new(ErrorKind::Validation, String::from_str("invalid domain")));
        }
        if self.find_domain_idx(norm.as_str()).is_some() {
            return Err(
                ApiError::new(ErrorKind::Conflict, String::from_str("domain already exists")),
            );
        }
        if self.find_token_idx(token.as_str()).is_some() {
            return Err(
                ApiError::new(ErrorKind::Conflict, String::from_str("token already exists")),
            );
        }
        let ghost old_rows = self.rows@;
        let mut k: usize = 0;
        while k < self.rows.len() && str_lt(self.rows[k].domain.as_str(), norm.as_str())
            invariant
                0 <= k <= self.rows@.len(),
                *self == *old(self),
                forall|i: int| 0 <= i < k ==> lex_lt(#[trigger] self.rows@[i].domain@, norm@),
            decreases self.rows@.len() - k,
        {
            k = k + 1;
        }
        proof {
            lemma_lookup_domain_char(old_rows, norm@, 0);
            lemma_lookup_token_char(old_rows, token@, 0);
            assert forall|j: int| k <= j < old_rows.len() implies lex_lt(
                norm@,
                #[trigger] old_rows[j].domain@,
            ) by {
                lemma_lex_total(norm@, old_rows[k as int].domain@);
                if j > k {
                    lemma_lex_trans(norm@, old_rows[k as int].domain@, old_rows[j].domain@);
                }
            }
        }
        let row = DomainRow { domain: norm, token, created_at: now };
        let ghost row_g = row;
        self.rows.insert(k, row);
        proof {
            let new_rows = self.rows@;
            let nd = row_g.domain@;
            let nt = row_g.token@;
            assert(new_rows == old_rows.insert(k as int, row_g));
            assert forall|p: int, q: int|
                0 <= p < q < old_rows.len() implies old_rows[p].domain@
                != old_rows[q].domain@ by {
                if old_rows[p].domain@ == old_rows[q].domain@ {
                    crate::text::lemma_lex_irrefl(old_rows[p].domain@);
                }
            }
            assert forall|i: int, j: int| 0 <= i < j < new_rows.len() implies lex_lt(
                new_rows[i].domain@,
                new_rows[j].domain@,
            ) && new_rows[i].token@ != new_rows[j].token@ by {}
            assert forall|i: int| 0 <= i < new_rows.len() implies valid_domain(
                #[trigger] new_rows[i].domain@,
            ) by {}
            lemma_lookup_domain_present(new_rows, k as int);
            lemma_lookup_token_present(new_rows, k as int);
            assert forall|x: Seq<char>| x != nd implies lookup_domain(new_rows, x) == lookup_domain(
                old_rows,
                x,
            ) by {
                lemma_lookup_domain_char(old_rows, x, 0);
                lemma_lookup_domain_char(new_rows, x, 0);
                match lookup_domain(old_rows, x) {
                    Some(r) => {
                        let j = choose|j: int|
                            0 <= j < old_rows.len() && old_rows[j] == r && r.domain@ == x;
                        let j2 = if j < k { j } else { j + 1 };
                        assert(new_rows[j2] == old_rows[j]);
                        assert forall|m: int| 0 <= m < j2 implies new_rows[m].domain@
                            != x by {
                            let m0 = if m < k { m } else { m - 1 };
                            if m != k {
                                assert(new_rows[m] == old_rows[m0]);
                            }
                        }
                        lemma_lookup_domain_present(new_rows, j2);
                    },
                    None => {
                        if lookup_domain(new_rows, x) is Some {
                            let r2 = lookup_domain(new_rows, x)->0;
                            let j2 = choose|j2: int|
                                0 <= j2 < new_rows.len() && new_rows[j2] == r2 && r2.domain@ == x;
                            if j2 != k {
                                let j0 = if j2 < k { j2 } else { j2 - 1 };
                                assert(new_rows[j2] == old_rows[j0]);
                            }
                        }
                    },
                }
            }
            assert forall|x: Seq<char>| x != nt implies lookup_token(new_rows, x) == lookup_token(
                old_rows,
                x,
            ) by {
                lemma_lookup_token_char(old_rows, x, 0);
                lemma_lookup_token_char(new_rows, x, 0);
                match lookup_token(old_rows, x) {
                    Some(r) => {
                        let j = choose|j: int|
                            0 <= j < old_rows.len() && old_rows[j] == r && r.token@ == x;
                        let j2 = if j < k { j } else { j + 1 };
                        assert(new_rows[j2] == old_rows[j]);
                        assert forall|m: int| 0 <= m < j2 implies new_rows[m].token@ != x by {
                            let m0 = if m < k { m } else { m - 1 };
                            if m != k {
                                assert(new_rows[m] == old_rows[m0]);
                            }
                        }
                        lemma_lookup_token_present(new_rows, j2);
                    },
                    None => {
                        if lookup_token(new_rows, x) is Some {
                            let r2 = lookup_token(new_rows, x)->0;
                            let j2 = choose|j2: int|
                                0 <= j2 < new_rows.len() && new_rows[j2] == r2 && r2.token@ == x;
                            if j2 != k {
                                let j0 = if j2 < k { j2 } else { j2 - 1 };
                                assert(new_rows[j2] == old_rows[j0]);
                            }
                        }
                    },
                }
            }
        }
        let domain_copy = self.rows[k].domain.clone();
        let token_copy = self.rows[k].token.clone();
        Ok(DomainResponse { domain: domain_copy, token: token_copy })
    }

    /// Registers `name` under a freshly drawn random token.
    ///
    /// The token is random, so a collision with an existing one cannot be
    /// ruled out; it surfaces as a `Conflict`, exactly as a storage
    /// uniqueness violation would.
    pub fn register(&mut self, name: &str, now: i64) -> (r: Result<DomainResponse, ApiError>)
        requires
            old(self).wf(),
        ensures
            final(self).wf(),
            ({
                let norm = lower_of(trim_spec(name@));
                &&& !valid_domain(norm) ==> (r matches Err(e) && e.kind == ErrorKind::Validation)
                &&& valid_domain(norm) && lookup_domain(old(self).rows@, norm) is Some ==> (
                r matches Err(e) && e.kind == ErrorKind::Conflict)
                &&& valid_domain(norm) && lookup_domain(old(self).rows@, norm) is None && r is Err
                    ==> (r matches Err(e) && e.kind == ErrorKind::Conflict)
                &&& r is Err ==> *final(self) == *old(self)
                &&& r matches Ok(resp) ==> (valid_domain(norm) && lookup_domain(
                    old(self).rows@,
                    norm,
                ) is None && resp.domain@ == norm && registered_post(
                    old(self).rows@,
                    final(self).rows@,
                    norm,
                    resp.token@,
                    now,
                ))
            }),
    {
        let token = fresh_uuid();
        self.register_with_token(name, token, now)
    }

    /// Removes the registration of `name` (compared lowercased), failing
    /// with `NotFound` when there is none. The removed domain's token stops
    /// resolving at once; every other lookup is answered as before.
    pub fn delete(&mut self, name: &str) -> (r: Result<(), ApiError>)
        requires
            old(self).wf(),
        ensures
            final(self).wf(),
            ({
                let norm = lower_of(name@);
                &&& lookup_domain(old(self).rows@, norm) is None ==> (r matches Err(e) && e.kind
                    == ErrorKind::NotFound && *final(self) == *old(self))
                &&& match lookup_domain(old(self).rows@, norm) {
                    Some(row) => r is Ok && final(self).rows@.len() == old(self).rows@.len() - 1
                        && lookup_domain(final(self).rows@, norm) is None && lookup_token(
                        final(self).rows@,
                        row.token@,
                    ) is None && (forall|x: Seq<char>|
                        x != norm ==> lookup_domain(final(self).rows@, x) == lookup_domain(
                            old(self).rows@,
                            x,
                        )) && (forall|x: Seq<char>|
                        x != row.token@ ==> lookup_token(final(self).rows@, x) == lookup_token(
                            old(self).rows@,
                            x,
                        )),
                    None => true,
                }
            }),
    {
        let norm = lowercase(name);
        let k = match self.find_domain_idx(norm.as_str()) {
            Some(k) => k,
            None => {
                return Err(ApiError::new(ErrorKind::NotFound, String::from_str("domain not found")));
            },
        };
        let ghost old_rows = self.rows@;
        let ghost removed = self.rows@[k as int];
        self.rows.remove(k);
        proof {
            let new_rows = self.rows@;
            assert(new_rows == old_rows.remove(k as int));
            assert forall|p: int, q: int|
                0 <= p < q < old_rows.len() implies old_rows[p].domain@
                != old_rows[q].domain@ by {
                if old_rows[p].domain@ == old_rows[q].domain@ {
                    crate::text::lemma_lex_irrefl(old_rows[p].domain@);
                }
            }
            assert forall|i: int, j: int| 0 <= i < j < new_rows.len() implies lex_lt(
                new_rows[i].domain@,
                new_rows[j].domain@,
            ) && new_rows[i].token@ != new_rows[j].token@ by {
                let i0 = if i < k { i } else { i + 1 };
                let j0 = if j < k { j } else { j + 1 };
                assert(new_rows[i] == old_rows[i0]);
                assert(new_rows[j] == old_rows[j0]);
            }
            assert forall|i: int| 0 <= i < new_rows.len() implies valid_domain(
                #[trigger] new_rows[i].domain@,
            ) by {
                let i0 = if i < k { i } else { i + 1 };
                assert(new_rows[i] == old_rows[i0]);
            }
            assert forall|i: int| 0 <= i < new_rows.len() implies new_rows[i].domain@
                != removed.domain@ && new_rows[i].token@ != removed.token@ by {
                let i0 = if i < k { i } else { i + 1 };
                assert(new_rows[i] == old_rows[i0]);
            }
            lemma_lookup_domain_char(new_rows, removed.domain@, 0);
            lemma_lookup_token_char(new_rows, removed.token@, 0);
            assert forall|x: Seq<char>| x != removed.domain@ implies lookup_domain(new_rows, x)
                == lookup_domain(old_rows, x) by {
                lemma_lookup_domain_char(old_rows, x, 0);
                lemma_lookup_domain_char(new_rows, x, 0);
                match lookup_domain(old_rows, x) {
                    Some(r) => {
                        let j = choose|j: int|
                            0 <= j < old_rows.len() && old_rows[j] == r && r.domain@ == x;
                        let j2 = if j < k { j } else { j - 1 };
                        assert(old_rows[j].domain@ != removed.domain@);
                        assert(new_rows[j2] == old_rows[j]);
                        assert forall|m: int| 0 <= m < j2 implies new_rows[m].domain@
                            != x by {
                            let m0 = if m < k { m } else { m + 1 };
                            assert(new_rows[m] == old_rows[m0]);
                        }
                        lemma_lookup_domain_present(new_rows, j2);
                    },
                    None => {
                        if lookup_domain(new_rows, x) is Some {
                            let r2 = lookup_domain(new_rows, x)->0;
                            let j2 = choose|j2: int|
                                0 <= j2 < new_rows.len() && new_rows[j2] == r2 && r2.domain@ == x;
                            let j0 = if j2 < k { j2 } else { j2 + 1 };
                            assert(new_rows[j2] == old_rows[j0]);
                        }
                    },
                }
            }
            assert forall|x: Seq<char>| x != removed.token@ implies lookup_token(new_rows, x)
                == lookup_token(old_rows, x) by {
                lemma_lookup_token_char(old_rows, x, 0);
                lemma_lookup_token_char(new_rows, x, 0);
                match lookup_token(old_rows, x) {
                    Some(r) => {
                        let j = choose|j: int|
                            0 <= j < old_rows.len() && old_rows[j] == r && r.token@ == x;
                        let j2 = if j < k { j } else { j - 1 };
                        assert(old_rows[j].token@ != removed.token@);
                        assert(new_rows[j2] == old_rows[j]);
                        assert forall|m: int| 0 <= m < j2 implies new_rows[m].token@ != x by {
                            let m0 = if m < k { m } else { m + 1 };
                            assert(new_rows[m] == old_rows[m0]);
                        }
                        lemma_lookup_token_present(new_rows, j2);
                    },
                    None => {
                        if lookup_token(new_rows, x) is Some {
                            let r2 = lookup_token(new_rows, x)->0;
                            let j2 = choose|j2: int|
                                0 <= j2 < new_rows.len() && new_rows[j2] == r2 && r2.token@ == x;
                            let j0 = if j2 < k { j2 } else { j2 + 1 };
                            assert(new_rows[j2] == old_rows[j0]);
                        }
                    },
                }
            }
        }
        Ok(())
    }

    /// The domain a token authorizes, if the token is known.
    pub fn lookup_by_token(&self, token: &str) -> (r: Option<String>)
        ensures
            match lookup_token(self.rows@, token@) {
                Some(row) => r matches Some(d) && d@ == row.domain@,
                None => r is None,
            },
    {
        match self.find_token_idx(token) {
            Some(i) => Some(self.rows[i].domain.clone()),
            None => None,
        }
    }

    /// Every registration, ascending by domain name.
    pub fn list(&self) -> (r: Vec<DomainListEntry>)
        requires
            self.wf(),
        ensures
            r@.len() == self.rows@.len(),
            forall|i: int|
                0 <= i < r@.len() ==> #[trigger] r@[i].domain@ == self.rows@[i].domain@
                    && r@[i].created_at == self.rows@[i].created_at,
            forall|i: int, j: int| 0 <= i < j < r@.len() ==> lex_lt(r@[i].domain@, r@[j].domain@),
    {
        let mut out: Vec<DomainListEntry> = Vec::new();
        let mut i: usize = 0;
        while i < self.rows.len()
            invariant
                0 <= i <= self.rows@.len(),
                out@.len() == i,
                forall|m: int|
                    0 <= m < i ==> #[trigger] out@[m].domain@ == self.rows@[m].domain@
                        && out@[m].created_at == self.rows@[m].created_at,
            decreases self.rows@.len() - i,
        {
            let row = &self.rows[i];
            out.push(DomainListEntry { domain: row.domain.clone(), created_at: row.created_at });
            i = i + 1;
        }
        out
    }

    /// Idempotent bulk registration: registers each listed domain that is
    /// not present yet, skipping invalid and already-present entries, and
    /// never failing the caller. A pass over domains that are all present
    /// (or invalid) changes nothing.
    pub fn seed(&mut self, domains: &Vec<String>, now: i64)
        requires
            old(self).wf(),
        ensures
            final(self).wf(),
            forall|x: Seq<char>|
                lookup_domain(old(self).rows@, x) is Some ==> lookup_domain(final(self).rows@, x)
                    == lookup_domain(old(self).rows@, x),
            forall|x: Seq<char>|
                lookup_domain(final(self).rows@, x) is Some ==> lookup_domain(old(self).rows@, x)
                    is Some || (exists|i: int|
                    0 <= i < domains@.len() && lower_of(trim_spec(#[trigger] domains@[i]@)) == x),
            (forall|i: int|
                0 <= i < domains@.len() ==> (valid_domain(
                    lower_of(trim_spec(#[trigger] domains@[i]@)),
                ) ==> lookup_domain(old(self).rows@, lower_of(trim_spec(domains@[i]@))) is Some))
                ==> *final(self) == *old(self),
    {
        let mut i: usize = 0;
        while i < domains.len()
            invariant
                0 <= i <= domains@.len(),
                self.wf(),
                forall|x: Seq<char>|
                    lookup_domain(old(self).rows@, x) is Some ==> lookup_domain(self.rows@, x)
                        == lookup_domain(old(self).rows@, x),
                forall|x: Seq<char>|
                    lookup_domain(self.rows@, x) is Some ==> lookup_domain(old(self).rows@, x)
                        is Some || (exists|m: int|
                        0 <= m < i && lower_of(trim_spec(#[trigger] domains@[m]@)) == x),
                (forall|m: int|
                    0 <= m < domains@.len() ==> (valid_domain(
                        lower_of(trim_spec(#[trigger] domains@[m]@)),
                    ) ==> lookup_domain(old(self).rows@, lower_of(trim_spec(domains@[m]@)))
                        is Some)) ==> *self == *old(self),
            decreases domains@.len() - i,
        {
            let entry = &domains[i];
            let _ = self.register(entry.as_str(), now);
            i = i + 1;
        }
    }
}

} // verus!
