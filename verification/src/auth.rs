//! Request authentication: the identity hook for the REST control plane
//! and bearer-token extraction from `Authorization` headers.

use vstd::prelude::*;
use vstd::string::StrSliceExecFns;
use vstd::string::StringExecFns;

use crate::strutil::str_eq;

verus! {

/// The status returned when a token-authenticated route receives a missing
/// or malformed `Authorization` header.
pub const STATUS_UNAUTHORIZED: u16 = 401;

/// The authenticated user's handle.
#[derive(Clone)]
pub struct UserId(pub String);

/// The bearer token extracted from an `Authorization` header.
#[derive(Clone)]
pub struct BearerToken(pub String);

/// `i` is the position of the first space in `h`.
pub open spec fn is_first_space(h: Seq<char>, i: int) -> bool {
    &&& 0 <= i < h.len()
    &&& h[i] == ' '
    &&& forall|j: int| 0 <= j < i ==> h[j] != ' '
}

/// The bearer token of an `Authorization` header value: the text after the
/// first space, provided the text before it is exactly `Bearer`.
pub open spec fn spec_bearer(h: Seq<char>) -> Option<Seq<char>> {
    if exists|i: int| is_first_space(h, i) {
        let i = choose|i: int| is_first_space(h, i);
        if h.subrange(0, i) == "Bearer"@ {
            Option::Some(h.subrange(i + 1, h.len() as int))
        } else {
            Option::None
        }
    } else {
        Option::None
    }
}

/// Extracts the bearer token from an `Authorization` header value.
pub fn parse_bearer(header: &str) -> (r: Option<String>)
    ensures
        match r {
            Option::Some(t) => spec_bearer(header@) == Option::Some(t@),
            Option::None => spec_bearer(header@) is None,
        },
{
    let n = header.unicode_len();
    let mut i: usize = 0;
    while i < n
        invariant
            n == header@.len(),
            0 <= i <= n,
            forall|j: int| 0 <= j < i ==> header@[j] != ' ',
        decreases n - i,
    {
        if header.get_char(i) == ' ' {
            proof {
                assert(is_first_space(header@, i as int));
                let w = choose|w: int| is_first_space(header@, w);
                assert(w == i as int);
            }
            let prefix = header.substring_char(0, i);
            if str_eq(prefix, "Bearer") {
                let token = header.substring_char(i + 1, n).to_owned();
                return Option::Some(token);
            } else {
                return Option::None;
            }
        }
        i = i + 1;
    }
    proof {
        assert forall|w: int| !is_first_space(header@, w) by {}
    }
    Option::None
}

/// The identity hook for user-authenticated routes.  The current identity
/// source is a stub yielding one fixed user handle.
pub struct UserAuth {}

impl UserAuth {
    /// The authenticated caller's handle.
    pub fn authorize() -> (r: UserId)
        ensures
            r.0@ == "testuser"@,
    {
        UserId(String::from_str("testuser"))
    }
}

/// The header check for token-authenticated routes.
pub struct TokenAuth {}

impl TokenAuth {
    /// Accepts exactly the requests whose `Authorization` header carries a
    /// well-formed bearer token; all others are turned away as
    /// unauthorized.
    pub fn authorize(header: Option<&str>) -> (r: Result<BearerToken, u16>)
        ensures
            match r {
                Result::Ok(t) => header matches Option::Some(h) && spec_bearer(h@)
                    == Option::Some(t.0@),
                Result::Err(code) => code == STATUS_UNAUTHORIZED && (match header {
                    Option::Some(h) => spec_bearer(h@) is None,
                    Option::None => true,
                }),
            },
    {
        match header {
            Option::None => Result::Err(STATUS_UNAUTHORIZED),
            Option::Some(h) => match parse_bearer(h) {
                Option::Some(t) => Result::Ok(BearerToken(t)),
                Option::None => Result::Err(STATUS_UNAUTHORIZED),
            },
        }
    }
}

} // verus!
