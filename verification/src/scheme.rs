//! Deciding whether a request reached the service over HTTP or HTTPS, from
//! the forwarded-protocol header and the request's host.

use vstd::prelude::*;

verus! {

/// The scheme a request is considered to use.
#[derive(Clone, Copy, Debug, PartialEq, Eq, Structural)]
pub enum RequestScheme {
    Http,
    Https,
}

impl RequestScheme {
    /// The scheme's lowercase name.
    pub fn scheme_str(&self) -> (r: &'static str)
        ensures
            *self is Http ==> r@ == "http"@,
            *self is Https ==> r@ == "https"@,
    {
        match self {
            RequestScheme::Http => "http",
            RequestScheme::Https => "https",
        }
    }
}

/// String equality, decided character by character.
fn str_eq(a: &str, b: &str) -> (r: bool)
    ensures
        r == (a@ == b@),
{
    let n = a.unicode_len();
    if n != b.unicode_len() {
        return false;
    }
    let mut i: usize = 0;
    while i < n
        invariant
            0 <= i <= n,
            n == a@.len(),
            n == b@.len(),
            forall|k: int| 0 <= k < i ==> a@[k] == b@[k],
        decreases n - i,
    {
        if a.get_char(i) != b.get_char(i) {
            return false;
        }
        i = i + 1;
    }
    proof {
        assert(a@ =~= b@);
    }
    true
}

/// Which scheme to assume for a request: an explicit forwarded protocol of
/// "https" or "http" wins (anything else is treated as HTTPS); without
/// one, only well-known local hosts are assumed to be HTTP.
pub open spec fn scheme_for_spec(proto: Option<Seq<char>>, host: Option<Seq<char>>) -> RequestScheme {
    match proto {
        Some(p) => if p == "https"@ {
            RequestScheme::Https
        } else if p == "http"@ {
            RequestScheme::Http
        } else {
            RequestScheme::Https
        },
        None => match host {
            Some(h) => if h == "localhost"@ || h == "0.0.0.0"@ || h == "127.0.0.1"@ {
                RequestScheme::Http
            } else {
                RequestScheme::Https
            },
            None => RequestScheme::Https,
        },
    }
}

/// Decides the request scheme from the forwarded-protocol header and the
/// request's host domain, when present.
pub fn scheme_for(forwarded_proto: Option<&str>, host_domain: Option<&str>) -> (r: RequestScheme)
    ensures
        r == scheme_for_spec(
            match forwarded_proto {
                Some(p) => Some(p@),
                None => None,
            },
            match host_domain {
                Some(h) => Some(h@),
                None => None,
            },
        ),
{
    match forwarded_proto {
        Some(p) => {
            if str_eq(p, "https") {
                RequestScheme::Https
            } else if str_eq(p, "http") {
                RequestScheme::Http
            } else {
                RequestScheme::Https
            }
        },
        None => match host_domain {
            Some(h) => {
                if str_eq(h, "localhost") || str_eq(h, "0.0.0.0") || str_eq(h, "127.0.0.1") {
                    RequestScheme::Http
                } else {
                    RequestScheme::Https
                }
            },
            None => RequestScheme::Https,
        },
    }
}

} // verus!
