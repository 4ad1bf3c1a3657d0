//! Who may read the simulator's admin endpoints.

use vstd::prelude::*;
use crate::text::{chars_of, has_prefix, matches_at, str_eq, string_of_range};

verus! {

/// The answer to a request for the admin endpoints.
#[derive(Clone, Copy, Debug, PartialEq, Eq, Structural)]
pub enum AdminAccess {
    /// The request may proceed.
    Allowed,
    /// No bearer token was given (401).
    Unauthorized,
    /// The bearer token is not the admin token (403).
    Forbidden,
}

/// The prefix of a bearer authorization.
pub open spec fn bearer() -> Seq<char> {
    seq!['B', 'e', 'a', 'r', 'e', 'r', ' ']
}

/// The text left once every leading `Bearer ` is removed
/// (`str::trim_start_matches`).
pub open spec fn strip_bearer(s: Seq<char>) -> Seq<char>
    decreases s.len(),
{
    if has_prefix(s, bearer()) {
        strip_bearer(s.skip(7))
    } else {
        s
    }
}

/// Access to the admin endpoints: free when no admin token is configured;
/// else an `Authorization` value starting with `Bearer ` whose token is the
/// admin token is allowed, another token is forbidden, and anything else is
/// unauthorized.
pub open spec fn admin_access_of(token: Option<Seq<char>>, authorization: Option<Seq<char>>) -> AdminAccess {
    match token {
        None => AdminAccess::Allowed,
        Some(t) => match authorization {
            Some(h) => if has_prefix(h, bearer()) {
                if strip_bearer(h) == t { AdminAccess::Allowed } else { AdminAccess::Forbidden }
            } else {
                AdminAccess::Unauthorized
            },
            None => AdminAccess::Unauthorized,
        },
    }
}

/// The view of an optional text.
pub open spec fn opt_text(o: Option<&str>) -> Option<Seq<char>> {
    match o {
        Some(s) => Some(s@),
        None => None,
    }
}

/// Decides access to the admin endpoints (see [`admin_access_of`]).
pub fn admin_access(admin_token: Option<&str>, authorization: Option<&str>) -> (r: AdminAccess)
    ensures
        r == admin_access_of(opt_text(admin_token), opt_text(authorization)),
{
    let token = match admin_token {
        None => return AdminAccess::Allowed,
        Some(t) => t,
    };
    let header = match authorization {
        None => return AdminAccess::Unauthorized,
        Some(h) => h,
    };
    let v = chars_of(header);
    let p: Vec<char> = vec!['B', 'e', 'a', 'r', 'e', 'r', ' '];
    assert(p@ =~= bearer());
    assert(v@.skip(0) =~= v@);
    if !matches_at(&v, &p, 0) {
        return AdminAccess::Unauthorized;
    }
    let mut k: usize = 0;
    while v.len() - k >= 7 && matches_at(&v, &p, k)
        invariant
            k <= v@.len(),
            p@ == bearer(),
            strip_bearer(v@) == strip_bearer(v@.skip(k as int)),
        decreases v@.len() - k,
    {
        assert(v@.skip(k as int).skip(7) =~= v@.skip(k + 7));
        k = k + 7;
    }
    if v.len() - k < 7 {
        assert(!has_prefix(v@.skip(k as int), bearer()));
    }
    let rest = string_of_range(&v, k, v.len());
    assert(rest@ =~= v@.skip(k as int));
    if str_eq(rest.as_str(), token) {
        AdminAccess::Allowed
    } else {
        AdminAccess::Forbidden
    }
}

} // verus!
