//! The endpoints of the sync backend, derived from its project URL.

use vstd::prelude::*;
use crate::text::{
    contains, lemma_replace_absent, replace_from,
    append_range, chars_of, replace_all, replace_prefix_range, trim_end_slashes,
    trim_end_slashes_len,
};

verus! {

broadcast use vstd::string::group_string_axioms;

/// Where the sync backend lives and the public key that it accepts.
#[derive(Debug, Clone)]
pub struct SyncConfig {
    pub url: String,
    pub anon_key: String,
}

/// The REST endpoint of a project URL.
pub open spec fn rest_endpoint(url: Seq<char>) -> Seq<char> {
    trim_end_slashes(url) + "/rest/v1"@
}

/// The auth endpoint of a project URL.
pub open spec fn auth_endpoint(url: Seq<char>) -> Seq<char> {
    trim_end_slashes(url) + "/auth/v1"@
}

/// The realtime endpoint of a project URL: `https://` turned into `wss://`.
pub open spec fn realtime_endpoint(url: Seq<char>) -> Seq<char> {
    replace_all(trim_end_slashes(url), "https://"@, "wss://"@) + "/realtime/v1/websocket"@
}

/// A trailing `/` on the project URL changes none of its endpoints.
pub proof fn lemma_trailing_slash_ignored(url: Seq<char>)
    ensures
        rest_endpoint(url.push('/')) == rest_endpoint(url),
        auth_endpoint(url.push('/')) == auth_endpoint(url),
        realtime_endpoint(url.push('/')) == realtime_endpoint(url),
{
    assert(url.push('/').drop_last() == url);
}

/// For an `https://` project URL with no trailing `/` and no second
/// `https://`, the REST and auth endpoints append their paths, and the
/// realtime endpoint swaps the scheme for `wss://` and appends its path.
pub proof fn lemma_endpoints_of_https_url(host: Seq<char>)
    requires
        host.len() > 0,
        host.last() != '/',
        !contains(host, "https://"@),
    ensures
        rest_endpoint("https://"@ + host) == "https://"@ + host + "/rest/v1"@,
        auth_endpoint("https://"@ + host) == "https://"@ + host + "/auth/v1"@,
        realtime_endpoint("https://"@ + host) == "wss://"@ + host + "/realtime/v1/websocket"@,
{
    reveal_strlit("https://");
    let p = "https://"@;
    let s = p + host;
    assert(s.last() == host.last());
    assert(trim_end_slashes(s) == s);
    assert(s.subrange(0, 8) == p);
    assert forall|k: int| 8 <= k && k + p.len() <= s.len() implies #[trigger] s.subrange(
        k,
        k + p.len(),
    ) != p by {
        assert(s.subrange(k, k + p.len()) == host.subrange(k - 8, k - 8 + p.len()));
        if host.subrange(k - 8, k - 8 + p.len()) == p {
            assert(contains(host, p));
        }
    }
    lemma_replace_absent(s, p, "wss://"@, 8);
    assert(s.subrange(8, s.len() as int) == host);
    assert(replace_from(s, p, "wss://"@, 0) == "wss://"@ + replace_from(s, p, "wss://"@, 8));
}

impl SyncConfig {
    /// The configuration made of the two settings, present only when both are
    /// given and neither is empty.
    pub fn from_values(url: Option<String>, anon_key: Option<String>) -> (r: Option<SyncConfig>)
        ensures
            r is Some <==> (url is Some && anon_key is Some && url->0@.len() > 0
                && anon_key->0@.len() > 0),
            r matches Some(c) ==> c.url == url->0 && c.anon_key == anon_key->0,
    {
        let url = match url {
            Some(u) => u,
            None => return None,
        };
        let anon_key = match anon_key {
            Some(k) => k,
            None => return None,
        };
        if url.as_str().is_empty() || anon_key.as_str().is_empty() {
            return None;
        }
        Some(SyncConfig { url, anon_key })
    }

    /// The REST endpoint.
    pub fn rest_url(&self) -> (r: String)
        ensures
            r@ == rest_endpoint(self.url@),
    {
        let cs = chars_of(self.url.as_str());
        let n = trim_end_slashes_len(&cs);
        let mut r = String::new();
        append_range(&mut r, &cs, 0, n);
        r.append("/rest/v1");
        r
    }

    /// The auth endpoint.
    pub fn auth_url(&self) -> (r: String)
        ensures
            r@ == auth_endpoint(self.url@),
    {
        let cs = chars_of(self.url.as_str());
        let n = trim_end_slashes_len(&cs);
        let mut r = String::new();
        append_range(&mut r, &cs, 0, n);
        r.append("/auth/v1");
        r
    }

    /// The realtime websocket endpoint.
    pub fn realtime_url(&self) -> (r: String)
        ensures
            r@ == realtime_endpoint(self.url@),
    {
        let cs = chars_of(self.url.as_str());
        let n = trim_end_slashes_len(&cs);
        let pat = chars_of("https://");
        proof {
            reveal_strlit("https://");
        }
        let mut r = replace_prefix_range(&cs, n, &pat, "wss://");
        r.append("/realtime/v1/websocket");
        r
    }
}

} // verus!
