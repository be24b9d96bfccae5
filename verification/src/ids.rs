//! Remote identifiers.
//!
//! Every remote activity, actor and entity is identified by a URL owned by
//! its origin server.  The pipeline only ever reads two things of such a URL:
//! its authority (scheme plus host, the part that names the origin server)
//! and the path that follows it, so a [`RemoteId`] holds exactly those.

use vstd::prelude::*;

verus! {

/// The mathematical value of a [`RemoteId`].
#[verifier::ext_equal]
pub struct RidM {
    pub authority: Seq<char>,
    pub path: Seq<char>,
}

/// A remote identifier: a URL split into its authority (e.g.
/// `https://example.com`) and the path that follows it (e.g. `/u/alice`).
pub struct RemoteId {
    pub authority: String,
    pub path: String,
}

impl View for RemoteId {
    type V = RidM;

    open spec fn view(&self) -> RidM {
        RidM { authority: self.authority@, path: self.path@ }
    }
}

impl Clone for RemoteId {
    fn clone(&self) -> (r: Self)
        ensures
            r == *self,
    {
        RemoteId { authority: self.authority.clone(), path: self.path.clone() }
    }
}

impl RemoteId {
    /// Builds an identifier from its two parts.
    pub fn new(authority: &str, path: &str) -> (r: RemoteId)
        ensures
            r@ == (RidM { authority: authority@, path: path@ }),
    {
        RemoteId { authority: authority.to_owned(), path: path.to_owned() }
    }
}

/// Two identifiers are the same URL exactly when both parts agree.
pub fn rid_eq(a: &RemoteId, b: &RemoteId) -> (r: bool)
    ensures
        r == (a@ == b@),
{
    let r = a.authority == b.authority && a.path == b.path;
    proof {
        if a@.authority == b@.authority && a@.path == b@.path {
            assert(a@ =~= b@);
        }
    }
    r
}

/// Whether two identifiers name the same origin server.
pub fn same_authority(a: &RemoteId, b: &RemoteId) -> (r: bool)
    ensures
        r == (a@.authority == b@.authority),
{
    a.authority == b.authority
}

/// Whether `s` carries the scheme separator `://` starting at position `i`.
pub open spec fn scheme_sep_at(s: Seq<char>, i: int) -> bool {
    &&& 0 <= i
    &&& i + 3 <= s.len()
    &&& s[i] == ':'
    &&& s[i + 1] == '/'
    &&& s[i + 2] == '/'
}

/// Position of the first scheme separator at or after `i`, or `-1`.
pub open spec fn sep_from(s: Seq<char>, i: int) -> int
    decreases s.len() - i,
{
    if i < 0 || i + 3 > s.len() {
        -1
    } else if scheme_sep_at(s, i) {
        i
    } else {
        sep_from(s, i + 1)
    }
}

/// Position of the first `/` at or after `i`, or the length of `s`.
pub open spec fn slash_from(s: Seq<char>, i: int) -> int
    decreases s.len() - i,
{
    if i < 0 || i >= s.len() {
        s.len() as int
    } else if s[i] == '/' {
        i
    } else {
        slash_from(s, i + 1)
    }
}

/// What parsing a URL yields: the split at the first `/` after the first
/// `://`, provided the host in between is not empty.
pub open spec fn parse_remote_id_spec(s: Seq<char>) -> Option<RidM> {
    let i = sep_from(s, 0);
    if i < 0 {
        None
    } else {
        let j = slash_from(s, i + 3);
        if j == i + 3 {
            None
        } else {
            Some(RidM { authority: s.take(j), path: s.skip(j) })
        }
    }
}

/// Splits a URL into authority and path.  Returns `None` when the text has
/// no `://` or an empty host, which a caller reports as a malformed envelope.
pub fn parse_remote_id(s: &str) -> (r: Option<RemoteId>)
    ensures
        match r {
            Some(rid) => parse_remote_id_spec(s@) == Some(rid@),
            None => parse_remote_id_spec(s@) is None,
        },
{
    let n = s.unicode_len();
    let mut i: usize = 0;
    let mut sep: Option<usize> = None;
    while sep.is_none() && n >= 3 && i <= n - 3
        invariant
            n == s@.len(),
            i <= n,
            match sep {
                None => sep_from(s@, 0) == sep_from(s@, i as int),
                Some(k) => sep_from(s@, 0) == k && k == i && scheme_sep_at(s@, k as int),
            },
        decreases n - i + (if sep is None { 1int } else { 0int }),
    {
        if s.get_char(i) == ':' && s.get_char(i + 1) == '/' && s.get_char(i + 2) == '/' {
            sep = Some(i);
        } else {
            i += 1;
        }
    }
    match sep {
        None => {
            assert(sep_from(s@, i as int) == -1);
            None
        },
        Some(k) => {
            let mut j: usize = k + 3;
            while j < n && s.get_char(j) != '/'
                invariant
                    n == s@.len(),
                    k + 3 <= j <= n,
                    slash_from(s@, k + 3) == slash_from(s@, j as int),
                decreases n - j,
            {
                j += 1;
            }
            assert(slash_from(s@, k + 3) == j);
            if j == k + 3 {
                None
            } else {
                let auth = s.substring_char(0, j);
                let path = s.substring_char(j, n);
                let rid = RemoteId { authority: auth.to_owned(), path: path.to_owned() };
                proof {
                    assert(s@.subrange(0, j as int) =~= s@.take(j as int));
                    assert(s@.subrange(j as int, n as int) =~= s@.skip(j as int));
                }
                Some(rid)
            }
        },
    }
}

} // verus!
