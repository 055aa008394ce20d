//! Security policy: pure, stateless gating of outbound navigation targets
//! and container images against compiled-in allowlists.
//!
//! `is_url_allowed` deliberately matches allowed domains as substrings of the
//! whole URL rather than parsing the host, so a URL that merely mentions an
//! allowed domain in its query string is accepted. That conservative-looking
//! but weak behaviour is part of the component's documented contract and is
//! preserved here, not corrected.
use vstd::prelude::*;
use vstd::string::StrSliceExecFns;

verus! {

/// `p` is a prefix of `s`.
pub open spec fn spec_starts_with(s: Seq<char>, p: Seq<char>) -> bool {
    p.len() <= s.len() && (forall|i: int| 0 <= i < p.len() ==> s[i] == p[i])
}

/// `pat` occurs in `s` at position `k`.
pub open spec fn spec_match_at(s: Seq<char>, pat: Seq<char>, k: int) -> bool {
    0 <= k && k + pat.len() <= s.len() && (forall|j: int| 0 <= j < pat.len() ==> s[k + j] == pat[j])
}

/// `pat` occurs somewhere in `s`.
pub open spec fn spec_contains(s: Seq<char>, pat: Seq<char>) -> bool {
    exists|k: int| spec_match_at(s, pat, k)
}

/// Character-for-character string equality.
pub fn str_eq(a: &str, b: &str) -> (r: bool)
    ensures
        r == (a@ == b@),
{
    let alen = a.unicode_len();
    let blen = b.unicode_len();
    if alen != blen {
        return false;
    }
    let mut i: usize = 0;
    while i < alen
        invariant
            alen == a@.len(),
            blen == b@.len(),
            alen == blen,
            i <= alen,
            forall|j: int| 0 <= j < i ==> a@[j] == b@[j],
        decreases alen - i,
    {
        if a.get_char(i) != b.get_char(i) {
            return false;
        }
        i += 1;
    }
    proof {
        assert(a@ =~= b@);
    }
    true
}

/// Whether `p` is a prefix of `s`.
pub fn str_starts_with(s: &str, p: &str) -> (r: bool)
    ensures
        r == spec_starts_with(s@, p@),
{
    let slen = s.unicode_len();
    let plen = p.unicode_len();
    if plen > slen {
        return false;
    }
    let mut i: usize = 0;
    while i < plen
        invariant
            slen == s@.len(),
            plen == p@.len(),
            plen <= slen,
            i <= plen,
            forall|j: int| 0 <= j < i ==> s@[j] == p@[j],
        decreases plen - i,
    {
        if s.get_char(i) != p.get_char(i) {
            return false;
        }
        i += 1;
    }
    true
}

/// Whether `pat` occurs in `s` starting at position `k`.
fn str_matches_at(s: &str, pat: &str, k: usize) -> (r: bool)
    requires
        k + pat@.len() <= s@.len() <= usize::MAX,
    ensures
        r == spec_match_at(s@, pat@, k as int),
{
    let plen = pat.unicode_len();
    let mut j: usize = 0;
    while j < plen
        invariant
            plen == pat@.len(),
            k + plen <= s@.len() <= usize::MAX,
            j <= plen,
            forall|m: int| 0 <= m < j ==> s@[k + m] == pat@[m],
        decreases plen - j,
    {
        if s.get_char(k + j) != pat.get_char(j) {
            return false;
        }
        j += 1;
    }
    true
}

/// Substring search: whether `pat` occurs anywhere in `s`.
pub fn str_contains(s: &str, pat: &str) -> (r: bool)
    ensures
        r == spec_contains(s@, pat@),
{
    let slen = s.unicode_len();
    let plen = pat.unicode_len();
    if plen > slen {
        assert(forall|k: int| !spec_match_at(s@, pat@, k));
        return false;
    }
    let mut k: usize = 0;
    while k <= slen - plen
        invariant
            slen == s@.len(),
            plen == pat@.len(),
            plen <= slen,
            k <= slen - plen + 1,
            forall|m: int| 0 <= m < k ==> !spec_match_at(s@, pat@, m),
        decreases slen - plen - k + 1,
    {
        if str_matches_at(s, pat, k) {
            return true;
        }
        k += 1;
    }
    assert(forall|m: int| !spec_match_at(s@, pat@, m)) by {
        assert forall|m: int| !spec_match_at(s@, pat@, m) by {
            if 0 <= m < k {
                assert(!spec_match_at(s@, pat@, m));
            }
        }
    }
    false
}

/// A domain string is one of the compiled-in allowed destinations.
pub open spec fn spec_is_allowed_domain(d: Seq<char>) -> bool {
    ||| d == "chat.openai.com"@
    ||| d == "chat.deepseek.com"@
    ||| d == "chatglm.cn"@
    ||| d == "kimi.moonshot.cn"@
    ||| d == "github.com"@
    ||| d == "google.com"@
}

/// The URL's scheme is exactly `http` or `https`.
pub open spec fn spec_scheme_allowed(u: Seq<char>) -> bool {
    spec_starts_with(u, "http://"@) || spec_starts_with(u, "https://"@)
}

/// Some allowed domain occurs somewhere in the URL, as a plain substring.
pub open spec fn spec_domain_allowed(u: Seq<char>) -> bool {
    ||| spec_contains(u, "chat.openai.com"@)
    ||| spec_contains(u, "chat.deepseek.com"@)
    ||| spec_contains(u, "chatglm.cn"@)
    ||| spec_contains(u, "kimi.moonshot.cn"@)
    ||| spec_contains(u, "github.com"@)
    ||| spec_contains(u, "google.com"@)
}

/// A navigation target is allowed when its scheme is `http` or `https` and
/// it contains at least one allowed domain as a substring.
pub open spec fn spec_url_allowed(u: Seq<char>) -> bool {
    spec_scheme_allowed(u) && spec_domain_allowed(u)
}

/// A container image identifier is allowed exactly when it is one of the two
/// fixed, tag-qualified images. No wildcard or prefix matching.
pub open spec fn spec_image_allowed(im: Seq<char>) -> bool {
    im == "python:3.9-alpine"@ || im == "node:18-alpine"@
}

pub struct SecurityPolicy;

impl SecurityPolicy {
    /// Fails closed: refuses any URL whose scheme is not `http` or `https`;
    /// otherwise accepts exactly when some allowed domain occurs in the URL
    /// as a substring (host, path or query alike).
    pub fn is_url_allowed(url: &str) -> (r: bool)
        ensures
            r == spec_url_allowed(url@),
    {
        if !str_starts_with(url, "http://") && !str_starts_with(url, "https://") {
            return false;
        }
        if str_contains(url, "chat.openai.com") {
            return true;
        }
        if str_contains(url, "chat.deepseek.com") {
            return true;
        }
        if str_contains(url, "chatglm.cn") {
            return true;
        }
        if str_contains(url, "kimi.moonshot.cn") {
            return true;
        }
        if str_contains(url, "github.com") {
            return true;
        }
        if str_contains(url, "google.com") {
            return true;
        }
        false
    }

    /// Exact membership test against the fixed allowed-image set.
    pub fn is_image_allowed(image: &str) -> (r: bool)
        ensures
            r == spec_image_allowed(image@),
    {
        str_eq(image, "python:3.9-alpine") || str_eq(image, "node:18-alpine")
    }
}

/// A URL that does not begin with either accepted scheme is refused,
/// whatever domains it mentions.
pub proof fn lemma_url_refused_without_scheme(u: Seq<char>)
    requires
        !spec_starts_with(u, "http://"@),
        !spec_starts_with(u, "https://"@),
    ensures
        !spec_url_allowed(u),
{
}

/// A URL with an accepted scheme that contains an allowed domain anywhere —
/// including inside a query string or an unrelated host — is accepted:
/// matching is by substring, not by parsed host.
pub proof fn lemma_url_allowed_by_substring(u: Seq<char>, d: Seq<char>)
    requires
        spec_scheme_allowed(u),
        spec_is_allowed_domain(d),
        spec_contains(u, d),
    ensures
        spec_url_allowed(u),
{
}

/// Image gating admits nothing outside the fixed two-element set.
pub proof fn lemma_image_refused_outside_set(im: Seq<char>)
    requires
        im != "python:3.9-alpine"@,
        im != "node:18-alpine"@,
    ensures
        !spec_image_allowed(im),
{
}

} // verus!
