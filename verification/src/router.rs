//! The request router: path normalization, the fixed asset allow-list, and
//! the served response with its cache and certification headers.
use vstd::prelude::*;

use vstd::string::{StrSliceExecFns, StringExecFns, StringSliceAdditionalSpecFns};

use crate::cbor::{build_certificate_header, certificate_header_spec, labeled_message};
use crate::certified::{asset_root_digest, cert_label_spec, digest, sync_certified_data, tree_lookup, HashTree};
use crate::order::str_eq;
use crate::platform::sha256_of;
use crate::state::State;

verus! {

/// The first position of `c`, if any.
pub open spec fn find_char_spec(s: Seq<char>, c: char) -> Option<int>
    decreases s.len(),
{
    if s.len() == 0 {
        None
    } else if s[0] == c {
        Some(0)
    } else {
        match find_char_spec(s.drop_first(), c) {
            Some(i) => Some(i + 1),
            None => None,
        }
    }
}

/// The first position where "://" starts, if any.
pub open spec fn find_scheme_spec(s: Seq<char>) -> Option<int>
    decreases s.len(),
{
    if s.len() < 3 {
        None
    } else if s[0] == ':' && s[1] == '/' && s[2] == '/' {
        Some(0)
    } else {
        match find_scheme_spec(s.drop_first()) {
            Some(i) => Some(i + 1),
            None => None,
        }
    }
}

/// How a raw request URL normalizes: the query string is cut off, a
/// scheme-and-host prefix is cut through the first slash after it, and an
/// empty remainder becomes the root path.
pub open spec fn normalize_path_spec(url: Seq<char>) -> Seq<char> {
    let q = match find_char_spec(url, '?') {
        Some(i) => url.take(i),
        None => url,
    };
    let p = match find_scheme_spec(q) {
        Some(i) => {
            let rem = q.skip(i + 3);
            match find_char_spec(rem, '/') {
                Some(j) => rem.skip(j),
                None => "/"@,
            }
        },
        None => q,
    };
    if p.len() == 0 {
        "/"@
    } else {
        p
    }
}

/// The fixed allow-list: the root and the three asset paths.
pub open spec fn allowed_path(p: Seq<char>) -> bool {
    p == "/"@ || p == "/active-wallets-daily.json"@ || p == "/extrinsics-daily.json"@
        || p == "/new-wallets-inflow.json"@
}

/// The cached payload served for an allow-listed path.
pub open spec fn served_payload(st: State, p: Seq<char>) -> Seq<char> {
    if p == "/extrinsics-daily.json"@ {
        st.extrinsics_payload@
    } else if p == "/new-wallets-inflow.json"@ {
        st.inflow_payload@
    } else {
        st.payload@
    }
}

/// Finds the first occurrence of `c` in `s`.
pub fn find_char(s: &str, c: char) -> (r: Option<usize>)
    ensures
        match r {
            Some(i) => find_char_spec(s@, c) == Some(i as int),
            None => find_char_spec(s@, c) is None,
        },
{
    let n = s.unicode_len();
    let mut i: usize = 0;
    proof {
        assert(s@.skip(0) =~= s@);
    }
    while i < n
        invariant
            0 <= i <= n,
            n == s@.len(),
            find_char_spec(s@, c) == match find_char_spec(s@.skip(i as int), c) {
                Some(k) => Some(k + i),
                None => None::<int>,
            },
        decreases n - i,
    {
        proof {
            assert(s@.skip(i as int)[0] == s@[i as int]);
            assert(s@.skip(i as int).drop_first() =~= s@.skip(i + 1));
        }
        if s.get_char(i) == c {
            return Some(i);
        }
        i = i + 1;
    }
    None
}

/// Finds the first occurrence of "://" in `s`.
pub fn find_scheme(s: &str) -> (r: Option<usize>)
    ensures
        match r {
            Some(i) => find_scheme_spec(s@) == Some(i as int) && i + 3 <= s@.len(),
            None => find_scheme_spec(s@) is None,
        },
{
    let n = s.unicode_len();
    if n < 3 {
        return None;
    }
    let mut i: usize = 0;
    proof {
        assert(s@.skip(0) =~= s@);
    }
    while i <= n - 3
        invariant
            0 <= i,
            i <= n - 2,
            n == s@.len(),
            n >= 3,
            find_scheme_spec(s@) == match find_scheme_spec(s@.skip(i as int)) {
                Some(k) => Some(k + i),
                None => None::<int>,
            },
        decreases n - i,
    {
        proof {
            assert(s@.skip(i as int)[0] == s@[i as int]);
            assert(s@.skip(i as int)[1] == s@[i + 1]);
            assert(s@.skip(i as int)[2] == s@[i + 2]);
            assert(s@.skip(i as int).drop_first() =~= s@.skip(i + 1));
        }
        if s.get_char(i) == ':' && s.get_char(i + 1) == '/' && s.get_char(i + 2) == '/' {
            return Some(i);
        }
        i = i + 1;
    }
    proof {
        assert(s@.skip(i as int).len() < 3);
    }
    None
}

/// Normalizes a raw request URL to a served path.
pub fn normalize_path(url: &str) -> (r: String)
    ensures
        r@ == normalize_path_spec(url@),
{
    let q: &str = match find_char(url, '?') {
        Some(i) => {
            proof {
                lemma_find_char_in_range(url@, '?');
            }
            let cut = url.substring_char(0, i);
            proof {
                assert(cut@ =~= url@.take(find_char_spec(url@, '?')->0));
            }
            cut
        },
        None => url,
    };
    let p: String = match find_scheme(q) {
        Some(i) => {
            let qn = q.unicode_len();
            let rem = q.substring_char(i + 3, qn);
            proof {
                assert(rem@ =~= q@.skip(i + 3));
            }
            match find_char(rem, '/') {
                Some(j) => {
                    proof {
                        lemma_find_char_in_range(rem@, '/');
                    }
                    let tail = rem.substring_char(j, rem.unicode_len());
                    proof {
                        assert(tail@ =~= rem@.skip(j as int));
                    }
                    String::from_str(tail)
                },
                None => String::from_str("/"),
            }
        },
        None => String::from_str(q),
    };
    if p.as_str().unicode_len() == 0 {
        String::from_str("/")
    } else {
        p
    }
}

/// A found position lies inside the sequence.
proof fn lemma_find_char_in_range(s: Seq<char>, c: char)
    ensures
        find_char_spec(s, c) matches Some(i) ==> 0 <= i < s.len(),
    decreases s.len(),
{
    if s.len() > 0 && s[0] != c {
        lemma_find_char_in_range(s.drop_first(), c);
    }
}

/// What the router serves: a status, headers, and a body.
pub struct HttpResponsePayload {
    /// 200 for allow-listed paths, 404 otherwise.
    pub status_code: u16,
    /// Response headers, in order.
    pub headers: Vec<(String, String)>,
    /// Response body bytes.
    pub body: Vec<u8>,
}

/// Serves one read request from the cached payloads. A path outside the
/// allow-list gets a plain-text 404 with no certification header. An
/// allow-listed path always gets 200 with the cached payload, a cache
/// header, and — when the authority's certificate is at hand — a
/// certification header whose witness recomputes the registered root and
/// shows the served payload's hash.
pub fn http_request(url: &str, state: &State, certificate: Option<&Vec<u8>>) -> (r: HttpResponsePayload)
    ensures
        !allowed_path(normalize_path_spec(url@)) ==> r.status_code == 404 && r.body@
            == "Not found".spec_bytes() && r.headers@.len() == 1 && r.headers@[0].0@
            == "Content-Type"@ && r.headers@[0].1@ == "text/plain"@,
        allowed_path(normalize_path_spec(url@)) ==> r.status_code == 200 && r.body@
            == vstd::utf8::encode_utf8(served_payload(*state, normalize_path_spec(url@)))
            && r.headers@[0].0@ == "Content-Type"@ && r.headers@[0].1@ == "application/json"@
            && r.headers@[1].0@ == "Cache-Control"@ && r.headers@[1].1@ == "public, max-age=60"@
            && (certificate is None ==> r.headers@.len() == 2)
            && (certificate matches Some(cert) ==> r.headers@.len() == 3 && r.headers@[2].0@
                == "IC-Certificate"@ && (exists|w: HashTree|
                    r.headers@[2].1@ == certificate_header_spec(cert@, labeled_message(cert_label_spec(), w))
                    && #[trigger] digest(w) == asset_root_digest(
                    sha256_of(vstd::utf8::encode_utf8(state.payload@)),
                    sha256_of(vstd::utf8::encode_utf8(state.extrinsics_payload@)),
                    sha256_of(vstd::utf8::encode_utf8(state.inflow_payload@)),
                ))),
{
    let path = normalize_path(url);
    let is_root = str_eq(path.as_str(), "/");
    let is_active = str_eq(path.as_str(), "/active-wallets-daily.json");
    let is_ext = str_eq(path.as_str(), "/extrinsics-daily.json");
    let is_inflow = str_eq(path.as_str(), "/new-wallets-inflow.json");
    if !(is_root || is_active || is_ext || is_inflow) {
        let mut headers: Vec<(String, String)> = Vec::new();
        headers.push((String::from_str("Content-Type"), String::from_str("text/plain")));
        return HttpResponsePayload {
            status_code: 404,
            headers,
            body: "Not found".as_bytes_vec(),
        };
    }
    let payload = if is_ext {
        state.extrinsics_payload.clone()
    } else if is_inflow {
        state.inflow_payload.clone()
    } else {
        state.payload.clone()
    };
    let mut headers: Vec<(String, String)> = Vec::new();
    headers.push((String::from_str("Content-Type"), String::from_str("application/json")));
    headers.push((String::from_str("Cache-Control"), String::from_str("public, max-age=60")));
    if let Some(cert) = certificate {
        let (hashes, _) = sync_certified_data(state);
        if let Some(header) = build_certificate_header(cert, &hashes, path.as_str()) {
            headers.push((String::from_str("IC-Certificate"), header));
        }
    }
    HttpResponsePayload { status_code: 200, headers, body: payload.as_str().as_bytes_vec() }
}

} // verus!
