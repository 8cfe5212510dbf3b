//! Hotlink protection: deciding from the `Referer` header whether another
//! site may embed the server's files.
use vstd::prelude::*;
use std::sync::Arc;
use crate::config::HotlinkConfig;
use crate::pattern::{regex_matches, regex_valid, wildcard_regex, WildcardPattern};
use crate::text::{chars_of, first_index, find_char_from, starts_with, string_of, sub_chars, trim, trim_chars};

verus! {

/// The part of `s` before the first `c` (the first piece of
/// `str::split(c)`).
pub open spec fn before(s: Seq<char>, c: char) -> Seq<char> {
    match first_index(s, c) {
        Some(i) => s.take(i),
        None => s,
    }
}

/// The host of a referer after its scheme: up to the first `/`, then up to
/// the first `:`.
pub open spec fn host_of(host_and_path: Seq<char>) -> Seq<char> {
    before(before(host_and_path, '/'), ':')
}

/// The domain of a referer URL: the host after an `http://`, `https://`
/// or `//` prefix (or of the whole text), without port.
pub open spec fn domain_of(url: Seq<char>) -> Seq<char> {
    let u = trim(url);
    if "http://"@.is_prefix_of(u) {
        host_of(u.skip(7))
    } else if "https://"@.is_prefix_of(u) {
        host_of(u.skip(8))
    } else if "//"@.is_prefix_of(u) {
        host_of(u.skip(2))
    } else {
        host_of(u)
    }
}

fn before_char(v: &[char], c: char) -> (r: Vec<char>)
    ensures
        r@ == before(v@, c),
{
    assert(v@.skip(0) == v@);
    match find_char_from(v, c, 0) {
        Some(i) => sub_chars(v, 0, i),
        None => sub_chars(v, 0, v.len()),
    }
}

/// `extract_domain_from_host`.
pub fn extract_domain_from_host(host_and_path: &[char]) -> (r: Option<String>)
    ensures
        r matches Some(d) && d@ == host_of(host_and_path@),
{
    let host = before_char(host_and_path, '/');
    let host = before_char(host.as_slice(), ':');
    Some(string_of(host.as_slice()))
}

/// `extract_domain`: the domain a referer URL names.
pub fn extract_domain(url: &str) -> (r: Option<String>)
    ensures
        r matches Some(d) && d@ == domain_of(url@),
{
    let raw = chars_of(url);
    let u = trim_chars(raw.as_slice());
    let http = chars_of("http://");
    let https = chars_of("https://");
    let slashes = chars_of("//");
    proof {
        reveal_strlit("http://");
        reveal_strlit("https://");
        reveal_strlit("//");
    }
    if starts_with(u.as_slice(), http.as_slice()) {
        let rest = sub_chars(u.as_slice(), 7, u.len());
        assert(rest@ == u@.skip(7));
        extract_domain_from_host(rest.as_slice())
    } else if starts_with(u.as_slice(), https.as_slice()) {
        let rest = sub_chars(u.as_slice(), 8, u.len());
        assert(rest@ == u@.skip(8));
        extract_domain_from_host(rest.as_slice())
    } else if starts_with(u.as_slice(), slashes.as_slice()) {
        let rest = sub_chars(u.as_slice(), 2, u.len());
        assert(rest@ == u@.skip(2));
        extract_domain_from_host(rest.as_slice())
    } else {
        extract_domain_from_host(u.as_slice())
    }
}

/// Whether a referer may fetch a file.
#[derive(Clone, Copy, Debug, PartialEq, Eq, Structural)]
pub enum HotlinkResult {
    Allowed,
    Denied,
}

/// The allowed-referer patterns that compile, in order.
pub open spec fn compiling_patterns(refs: Seq<Seq<char>>) -> Seq<Seq<char>>
    decreases refs.len(),
{
    if refs.len() == 0 {
        seq![]
    } else {
        compiling_patterns(refs.drop_last()) + (if regex_valid(wildcard_regex(refs.last())) {
            seq![refs.last()]
        } else {
            seq![]
        })
    }
}

/// The views of a list of strings.
pub open spec fn string_views(v: Seq<String>) -> Seq<Seq<char>> {
    v.map_values(|s: String| s@)
}

/// Whether some pattern matches the whole of `domain`.
pub open spec fn some_pattern_matches(patterns: Seq<Seq<char>>, domain: Seq<char>) -> bool {
    exists|i: int|
        0 <= i < patterns.len() && regex_matches(wildcard_regex(#[trigger] patterns[i]), domain)
}

/// The hotlink decision for a request with the given referer.
pub open spec fn hotlink_decision(
    enabled: bool,
    allow_direct: bool,
    patterns: Seq<Seq<char>>,
    referer: Option<Seq<char>>,
) -> HotlinkResult {
    if !enabled {
        HotlinkResult::Allowed
    } else {
        match referer {
            None => if allow_direct {
                HotlinkResult::Allowed
            } else {
                HotlinkResult::Denied
            },
            Some(r) => if some_pattern_matches(patterns, domain_of(r)) {
                HotlinkResult::Allowed
            } else {
                HotlinkResult::Denied
            },
        }
    }
}

/// With protection on, a request whose referer names a domain is allowed
/// exactly when one of the allowed patterns, at any position in the list,
/// matches that whole domain; with protection off every request is
/// allowed, and a request without a referer is allowed exactly when direct
/// requests are.
pub proof fn lemma_hotlink_allows_matching_referers(
    enabled: bool,
    allow_direct: bool,
    patterns: Seq<Seq<char>>,
    r: Seq<char>,
    k: int,
)
    ensures
        enabled && 0 <= k < patterns.len() && regex_matches(wildcard_regex(patterns[k]), domain_of(r))
            ==> hotlink_decision(enabled, allow_direct, patterns, Some(r)) == HotlinkResult::Allowed,
        enabled && hotlink_decision(enabled, allow_direct, patterns, Some(r))
            == HotlinkResult::Allowed ==> exists|j: int|
            0 <= j < patterns.len() && regex_matches(
                wildcard_regex(#[trigger] patterns[j]),
                domain_of(r),
            ),
        !enabled ==> hotlink_decision(enabled, allow_direct, patterns, Some(r))
            == HotlinkResult::Allowed,
        (hotlink_decision(enabled, allow_direct, patterns, None) == HotlinkResult::Allowed) == (
        !enabled || allow_direct),
{
    if enabled && 0 <= k < patterns.len() && regex_matches(wildcard_regex(patterns[k]), domain_of(r)) {
        assert(some_pattern_matches(patterns, domain_of(r)));
    }
}

/// A protector allows a referer whose domain one of its patterns, at any
/// position, matches (when protection is on).
pub proof fn lemma_protector_allows_any_pattern(p: HotlinkProtector, r: Seq<char>, k: int)
    requires
        p.settings().enabled,
        0 <= k < p.patterns().len(),
        regex_matches(wildcard_regex(p.patterns()[k]), domain_of(r)),
    ensures
        hotlink_decision(p.settings().enabled, p.settings().allow_direct, p.patterns(), Some(r))
            == HotlinkResult::Allowed,
{
    lemma_hotlink_allows_matching_referers(
        p.settings().enabled,
        p.settings().allow_direct,
        p.patterns(),
        r,
        k,
    );
}

/// Decides hotlink requests against the configured allowed referers.
#[derive(Debug)]
pub struct HotlinkProtector {
    config: Arc<HotlinkConfig>,
    allowed_patterns: Vec<WildcardPattern>,
}

pub open spec fn pattern_texts(v: Seq<WildcardPattern>) -> Seq<Seq<char>> {
    v.map_values(|p: WildcardPattern| p.text())
}

impl HotlinkProtector {
    /// The settings the protector was made with.
    pub closed spec fn settings(self) -> HotlinkConfig {
        *self.config
    }

    /// The texts of the allowed-referer patterns in use.
    pub closed spec fn patterns(self) -> Seq<Seq<char>> {
        pattern_texts(self.allowed_patterns@)
    }

    /// A protector for the given settings; referer patterns whose regex
    /// does not compile are left out.
    pub fn new(config: Arc<HotlinkConfig>) -> (r: HotlinkProtector)
        ensures
            r.settings() == *config,
            r.patterns() == compiling_patterns(string_views(config.allowed_referers@)),
    {
        let mut pats: Vec<WildcardPattern> = Vec::new();
        let refs = &config.allowed_referers;
        let ghost rv = string_views(refs@);
        let mut i: usize = 0;
        while i < refs.len()
            invariant
                i <= refs@.len(),
                rv == string_views(refs@),
                pattern_texts(pats@) == compiling_patterns(rv.take(i as int)),
            decreases refs.len() - i,
        {
            let ghost prev = pats@;
            assert(rv.take(i + 1).drop_last() == rv.take(i as int));
            assert(rv.take(i + 1).last() == refs@[i as int]@);
            match WildcardPattern::new(refs[i].as_str()) {
                Ok(p) => {
                    pats.push(p);
                    assert(pattern_texts(pats@) == pattern_texts(prev).push(refs@[i as int]@));
                },
                Err(_) => {},
            }
            i += 1;
        }
        assert(rv.take(refs@.len() as int) == rv);
        HotlinkProtector { config, allowed_patterns: pats }
    }

    /// Whether hotlink protection is on.
    pub fn is_enabled(&self) -> (b: bool)
        ensures
            b == self.settings().enabled,
    {
        self.config.enabled
    }

    /// Decides a request with the given `Referer` value.
    pub fn check(&self, referer: Option<&str>) -> (r: HotlinkResult)
        ensures
            r == hotlink_decision(
                self.settings().enabled,
                self.settings().allow_direct,
                self.patterns(),
                match referer {
                    Some(s) => Some(s@),
                    None => None,
                },
            ),
    {
        if !self.config.enabled {
            return HotlinkResult::Allowed;
        }
        let r_str = match referer {
            Some(r) => r,
            None => {
                if self.config.allow_direct {
                    return HotlinkResult::Allowed;
                } else {
                    return HotlinkResult::Denied;
                }
            },
        };
        let domain = extract_domain(r_str);
        let ghost ps = pattern_texts(self.allowed_patterns@);
        if let Some(domain) = domain {
            let mut i: usize = 0;
            while i < self.allowed_patterns.len()
                invariant
                    i <= self.allowed_patterns@.len(),
                    ps == pattern_texts(self.allowed_patterns@),
                    domain@ == domain_of(r_str@),
                    referer == Some(r_str),
                    self.config.enabled,
                    forall|j: int|
                        0 <= j < i ==> !regex_matches(wildcard_regex(#[trigger] ps[j]), domain@),
                decreases self.allowed_patterns.len() - i,
            {
                if self.allowed_patterns[i].matches(domain.as_str()) {
                    assert(regex_matches(wildcard_regex(ps[i as int]), domain@));
                    assert(some_pattern_matches(ps, domain_of(r_str@)));
                    return HotlinkResult::Allowed;
                }
                i += 1;
            }
        }
        HotlinkResult::Denied
    }

    /// The URL that refused hotlinks are redirected to, if any.
    pub fn fallback_url(&self) -> (r: Option<&str>)
        ensures
            match r {
                Some(u) => self.settings().fallback_url matches Some(f) && u@ == f@,
                None => self.settings().fallback_url is None,
            },
    {
        match &self.config.fallback_url {
            Some(u) => Some(u.as_str()),
            None => None,
        }
    }
}

} // verus!
