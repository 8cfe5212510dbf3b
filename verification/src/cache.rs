//! `Cache-Control` policy: how long each kind of file may be cached.
use vstd::prelude::*;
use std::sync::Arc;
use crate::config::CacheConfig;
use crate::mime_util::{
    category_from_path, category_of, lemma_extension_categories, lower_extension, FileCategory,
};
use crate::num::{decimal, push_decimal};
use crate::paths::{file_name, path_file_name};
use crate::pattern::{regex_is_match, regex_matches, regex_new, regex_source, regex_valid};
use crate::text::{chars_of, owned, push_str, string_of};

verus! {

/// The directives of a `Cache-Control` header; `max_age` is in seconds.
#[derive(Clone, Copy, Debug, PartialEq, Eq, Structural)]
pub struct CacheDirectives {
    pub max_age: Option<u64>,
    pub public: bool,
    pub no_cache: bool,
    pub no_store: bool,
    pub immutable: bool,
    pub must_revalidate: bool,
}

/// Public caching for `max_age` seconds, possibly immutable.
pub open spec fn public_for(max_age: u64, immutable: bool) -> CacheDirectives {
    CacheDirectives {
        max_age: Some(max_age),
        public: true,
        no_cache: false,
        no_store: false,
        immutable,
        must_revalidate: false,
    }
}

/// The directive names of a `Cache-Control` value, in the order the server
/// writes them.
pub open spec fn directive_list(d: CacheDirectives) -> Seq<Seq<char>> {
    (if d.public {
        seq!["public"@]
    } else {
        seq![]
    }) + (match d.max_age {
        Some(s) => seq!["max-age="@ + decimal(s as nat)],
        None => seq![],
    }) + (if d.no_cache {
        seq!["no-cache"@]
    } else {
        seq![]
    }) + (if d.no_store {
        seq!["no-store"@]
    } else {
        seq![]
    }) + (if d.immutable {
        seq!["immutable"@]
    } else {
        seq![]
    }) + (if d.must_revalidate {
        seq!["must-revalidate"@]
    } else {
        seq![]
    })
}

/// The items of `parts` separated by `sep`.
pub open spec fn join(parts: Seq<Seq<char>>, sep: Seq<char>) -> Seq<char>
    decreases parts.len(),
{
    if parts.len() == 0 {
        seq![]
    } else if parts.len() == 1 {
        parts[0]
    } else {
        join(parts.drop_last(), sep) + sep + parts.last()
    }
}

/// The `Cache-Control` value for some directives: the directives joined
/// by `, `, or `no-cache` when there are none.
pub open spec fn header_text(d: CacheDirectives) -> Seq<char> {
    let parts = directive_list(d);
    if parts.len() == 0 {
        "no-cache"@
    } else {
        join(parts, ", "@)
    }
}

/// The pattern used when the configured one does not compile.
pub open spec fn fallback_hash_pattern() -> Seq<char> {
    "[a-f0-9]{8,}"@
}

/// The pattern a policy uses for content-hashed names: the configured one
/// when it compiles, else the fallback.
pub open spec fn effective_hash_pattern(configured: Seq<char>) -> Seq<char> {
    if regex_valid(configured) {
        configured
    } else {
        fallback_hash_pattern()
    }
}

/// The directives for a file: by category, with scripts and stylesheets
/// whose name matches the hash pattern cached as immutable.
pub open spec fn directives_for(cfg: CacheConfig, hash_pattern: Seq<char>, path: Seq<char>) -> CacheDirectives {
    let name = match file_name(path) {
        Some(n) => n,
        None => seq![],
    };
    match category_of(lower_extension(path)) {
        FileCategory::Html => public_for(cfg.html_max_age, false),
        FileCategory::Css | FileCategory::JavaScript => if regex_matches(hash_pattern, name) {
            public_for(cfg.js_css_max_age, true)
        } else {
            public_for(3600, false)
        },
        FileCategory::Image => public_for(cfg.image_max_age, false),
        FileCategory::Font => public_for(cfg.font_max_age, true),
        FileCategory::Video | FileCategory::Audio => public_for(cfg.video_max_age, false),
        FileCategory::Other => public_for(cfg.default_max_age, false),
    }
}

/// Every file is cached publicly, for the lifetime configured for its
/// kind: pages for `html_max_age`, images for `image_max_age`, fonts for
/// `font_max_age` as immutable, video and audio for `video_max_age`, other
/// files for `default_max_age`; scripts and stylesheets whose name carries
/// a content hash for `js_css_max_age` as immutable, the others for an
/// hour. Only fonts and hashed scripts and stylesheets are immutable.
pub proof fn lemma_lifetime_by_kind(cfg: CacheConfig, hash_pattern: Seq<char>, path: Seq<char>)
    ensures
        ({
            let d = directives_for(cfg, hash_pattern, path);
            let kind = category_of(lower_extension(path));
            let name = match file_name(path) {
                Some(n) => n,
                None => seq![],
            };
            &&& d.public && !d.no_cache && !d.no_store && !d.must_revalidate
            &&& kind == FileCategory::Html ==> d.max_age == Some(cfg.html_max_age) && !d.immutable
            &&& kind == FileCategory::Image ==> d.max_age == Some(cfg.image_max_age) && !d.immutable
            &&& kind == FileCategory::Font ==> d.max_age == Some(cfg.font_max_age) && d.immutable
            &&& (kind == FileCategory::Video || kind == FileCategory::Audio) ==> d.max_age == Some(
                cfg.video_max_age,
            ) && !d.immutable
            &&& kind == FileCategory::Other ==> d.max_age == Some(cfg.default_max_age)
                && !d.immutable
            &&& (kind == FileCategory::Css || kind == FileCategory::JavaScript) ==> if regex_matches(
                hash_pattern,
                name,
            ) {
                d.max_age == Some(cfg.js_css_max_age) && d.immutable
            } else {
                d.max_age == Some(3600u64) && !d.immutable
            }
        }),
{
}

/// Video and audio files (by their lowercase extension) are cached
/// publicly for `video_max_age` and are not immutable.
pub proof fn lemma_media_lifetime(cfg: CacheConfig, hash_pattern: Seq<char>, path: Seq<char>)
    ensures
        ({
            let e = lower_extension(path);
            let d = directives_for(cfg, hash_pattern, path);
            (e == "mp4"@ || e == "webm"@ || e == "ogg"@ || e == "avi"@ || e == "mov"@
                || e == "mp3"@ || e == "wav"@ || e == "flac"@ || e == "aac"@) ==> d.public
                && d.max_age == Some(cfg.video_max_age) && !d.immutable
        }),
{
    lemma_extension_categories();
    lemma_lifetime_by_kind(cfg, hash_pattern, path);
}

impl CacheDirectives {
    /// The `Cache-Control` header value.
    #[verifier::spinoff_prover]
    pub fn to_header_value(&self) -> (r: String)
        ensures
            r@ == header_text(*self),
    {
        let mut parts: Vec<String> = Vec::new();
        let ghost d = *self;
        if self.public {
            parts.push(owned("public"));
        }
        match self.max_age {
            Some(secs) => {
                let mut p = owned("max-age=");
                push_decimal(&mut p, secs);
                parts.push(p);
            },
            None => {},
        }
        if self.no_cache {
            parts.push(owned("no-cache"));
        }
        if self.no_store {
            parts.push(owned("no-store"));
        }
        if self.immutable {
            parts.push(owned("immutable"));
        }
        if self.must_revalidate {
            parts.push(owned("must-revalidate"));
        }
        let ghost pv = parts@.map_values(|s: String| s@);
        assert(pv == directive_list(d));
        if parts.len() == 0 {
            return owned("no-cache");
        }
        let mut out = String::new();
        let mut i: usize = 0;
        while i < parts.len()
            invariant
                i <= parts@.len(),
                pv == parts@.map_values(|s: String| s@),
                out@ == join(pv.take(i as int), ", "@),
            decreases parts.len() - i,
        {
            assert(pv.take(i + 1).drop_last() == pv.take(i as int));
            assert(pv.take(i + 1).last() == parts@[i as int]@);
            if i > 0 {
                push_str(&mut out, ", ");
            } else {
                assert(pv.take(1) == seq![parts@[0]@]);
            }
            push_str(&mut out, parts[i].as_str());
            i += 1;
        }
        assert(pv.take(parts@.len() as int) == pv);
        out
    }

    /// Directives that forbid caching without revalidation.
    pub fn no_cache() -> (r: Self)
        ensures
            r == (CacheDirectives {
                max_age: None,
                public: false,
                no_cache: true,
                no_store: false,
                immutable: false,
                must_revalidate: false,
            }),
    {
        CacheDirectives {
            max_age: None,
            public: false,
            no_cache: true,
            no_store: false,
            immutable: false,
            must_revalidate: false,
        }
    }
}

/// Chooses cache directives for files.
#[derive(Debug)]
pub struct CachePolicy {
    config: Arc<CacheConfig>,
    hash_regex: regex::Regex,
}

impl CachePolicy {
    #[verifier::type_invariant]
    spec fn well_formed(self) -> bool {
        &&& regex_source(self.hash_regex) == effective_hash_pattern(
            self.config.js_css_hash_pattern@,
        )
        &&& regex_valid(regex_source(self.hash_regex))
    }

    /// The settings the policy was made with.
    pub closed spec fn settings(self) -> CacheConfig {
        *self.config
    }

    /// The regex that marks content-hashed names.
    pub closed spec fn hash_pattern(self) -> Seq<char> {
        regex_source(self.hash_regex)
    }

    /// A policy for the given settings. The configured hash pattern is used
    /// when it compiles, else the fallback pattern, which must compile.
    pub fn new(config: Arc<CacheConfig>) -> (r: Self)
        requires
            regex_valid(config.js_css_hash_pattern@) || regex_valid(fallback_hash_pattern()),
        ensures
            r.settings() == *config,
            r.hash_pattern() == effective_hash_pattern(config.js_css_hash_pattern@),
    {
        match Self::try_new(config) {
            Some(p) => p,
            None => vstd::pervasive::unreached(),
        }
    }

    /// A policy for the given settings, or `None` when neither the
    /// configured hash pattern nor the fallback compiles.
    pub fn try_new(config: Arc<CacheConfig>) -> (r: Option<Self>)
        ensures
            match r {
                Some(p) => p.settings() == *config && p.hash_pattern() == effective_hash_pattern(
                    config.js_css_hash_pattern@,
                ),
                None => !regex_valid(config.js_css_hash_pattern@) && !regex_valid(
                    fallback_hash_pattern(),
                ),
            },
    {
        match regex_new(config.js_css_hash_pattern.as_str()) {
            Ok(hash_regex) => Some(CachePolicy { config, hash_regex }),
            Err(_) => match regex_new("[a-f0-9]{8,}") {
                Ok(hash_regex) => Some(CachePolicy { config, hash_regex }),
                Err(_) => None,
            },
        }
    }

    /// The cache directives for a file.
    pub fn get_cache_control(&self, path: &str) -> (d: CacheDirectives)
        ensures
            d == directives_for(self.settings(), self.hash_pattern(), path@),
    {
        proof {
            use_type_invariant(self);
        }
        let category = category_from_path(path);
        let p = chars_of(path);
        let name = match path_file_name(p.as_slice()) {
            Some(n) => string_of(n.as_slice()),
            None => String::new(),
        };
        match category {
            FileCategory::Html => public_directives(self.config.html_max_age, false),
            FileCategory::Css | FileCategory::JavaScript => {
                let has_hash = regex_is_match(&self.hash_regex, name.as_str());
                if has_hash {
                    public_directives(self.config.js_css_max_age, true)
                } else {
                    public_directives(3600, false)
                }
            },
            FileCategory::Image => public_directives(self.config.image_max_age, false),
            FileCategory::Font => public_directives(self.config.font_max_age, true),
            FileCategory::Video | FileCategory::Audio => public_directives(
                self.config.video_max_age,
                false,
            ),
            FileCategory::Other => public_directives(self.config.default_max_age, false),
        }
    }

    /// Whether a file may be cached as immutable.
    pub fn is_immutable(&self, path: &str) -> (b: bool)
        ensures
            b == directives_for(self.settings(), self.hash_pattern(), path@).immutable,
    {
        let directives = self.get_cache_control(path);
        directives.immutable
    }
}

fn public_directives(max_age: u64, immutable: bool) -> (d: CacheDirectives)
    ensures
        d == public_for(max_age, immutable),
{
    CacheDirectives {
        max_age: Some(max_age),
        public: true,
        no_cache: false,
        no_store: false,
        immutable,
        must_revalidate: false,
    }
}

} // verus!
