//! Server configuration and its defaults. Durations are whole seconds.
use vstd::prelude::*;
use crate::text::owned;

verus! {

/// The default server settings.
pub open spec fn default_server_config(c: ServerConfig) -> bool {
    &&& c.listen_addr@ == "127.0.0.1:8080"@
    &&& c.root_dir@ == "./public"@
    &&& c.index_file@ == "index.html"@
    &&& !c.spa_fallback
    &&& !c.directory_listing
    &&& c.directory_page_size == 100
    &&& !c.follow_symlinks
    &&& !c.serve_hidden_files
    &&& c.max_path_depth == 32
}

/// The default cache settings.
pub open spec fn default_cache_config(c: CacheConfig) -> bool {
    &&& c.html_max_age == 300
    &&& c.js_css_max_age == 31536000
    &&& c.image_max_age == 86400
    &&& c.font_max_age == 31536000
    &&& c.video_max_age == 86400
    &&& c.default_max_age == 3600
    &&& c.js_css_hash_pattern@ == "[a-f0-9]{8,}"@
}

/// The default compression settings.
pub open spec fn default_compression_config(c: CompressionConfig) -> bool {
    &&& c.enabled
    &&& c.gzip_level == 6
    &&& c.brotli_level == 4
    &&& c.deflate_level == 6
    &&& c.precompressed
    &&& c.min_size == 256
    &&& c.max_size == 10 * 1024 * 1024
}

/// The default hotlink settings.
pub open spec fn default_hotlink_config(c: HotlinkConfig) -> bool {
    &&& !c.enabled
    &&& c.allowed_referers@.len() == 0
    &&& c.allow_direct
    &&& c.fallback_url is None
}

/// The default security settings.
pub open spec fn default_security_config(c: SecurityConfig) -> bool {
    &&& c.x_content_type_options
    &&& c.x_frame_options@ == "DENY"@
    &&& c.x_xss_protection
    &&& !c.strict_transport_security
    &&& c.hsts_max_age == 31536000
}

/// Where and how files are served.
#[derive(Clone, Debug)]
pub struct ServerConfig {
    pub listen_addr: String,
    pub root_dir: String,
    pub index_file: String,
    pub spa_fallback: bool,
    pub directory_listing: bool,
    pub directory_page_size: usize,
    pub follow_symlinks: bool,
    pub serve_hidden_files: bool,
    pub max_path_depth: usize,
}

impl Default for ServerConfig {
    fn default() -> (r: Self)
        ensures
            default_server_config(r),
    {
        ServerConfig {
            listen_addr: owned("127.0.0.1:8080"),
            root_dir: owned("./public"),
            index_file: owned("index.html"),
            spa_fallback: false,
            directory_listing: false,
            directory_page_size: 100,
            follow_symlinks: false,
            serve_hidden_files: false,
            max_path_depth: 32,
        }
    }
}

/// How long each kind of file may be cached, in seconds, and the pattern
/// that marks a script or stylesheet name as content-hashed.
#[derive(Clone, Debug)]
pub struct CacheConfig {
    pub html_max_age: u64,
    pub js_css_max_age: u64,
    pub image_max_age: u64,
    pub font_max_age: u64,
    pub video_max_age: u64,
    pub default_max_age: u64,
    pub js_css_hash_pattern: String,
}

impl Default for CacheConfig {
    fn default() -> (r: Self)
        ensures
            default_cache_config(r),
    {
        CacheConfig {
            html_max_age: 300,
            js_css_max_age: 31536000,
            image_max_age: 86400,
            font_max_age: 31536000,
            video_max_age: 86400,
            default_max_age: 3600,
            js_css_hash_pattern: owned("[a-f0-9]{8,}"),
        }
    }
}

/// Response compression settings.
#[derive(Clone, Debug)]
pub struct CompressionConfig {
    pub enabled: bool,
    pub gzip_level: u32,
    pub brotli_level: u32,
    pub deflate_level: u32,
    pub precompressed: bool,
    pub min_size: usize,
    pub max_size: usize,
}

impl Default for CompressionConfig {
    fn default() -> (r: Self)
        ensures
            default_compression_config(r),
    {
        CompressionConfig {
            enabled: true,
            gzip_level: 6,
            brotli_level: 4,
            deflate_level: 6,
            precompressed: true,
            min_size: 256,
            max_size: 10 * 1024 * 1024,
        }
    }
}

/// Hotlink protection settings.
#[derive(Clone, Debug)]
pub struct HotlinkConfig {
    pub enabled: bool,
    pub allowed_referers: Vec<String>,
    pub allow_direct: bool,
    pub fallback_url: Option<String>,
}

impl Default for HotlinkConfig {
    fn default() -> (r: Self)
        ensures
            default_hotlink_config(r),
    {
        HotlinkConfig {
            enabled: false,
            allowed_referers: Vec::new(),
            allow_direct: true,
            fallback_url: None,
        }
    }
}

/// Security header settings.
#[derive(Clone, Debug)]
pub struct SecurityConfig {
    pub x_content_type_options: bool,
    pub x_frame_options: String,
    pub x_xss_protection: bool,
    pub strict_transport_security: bool,
    pub hsts_max_age: u64,
}

impl Default for SecurityConfig {
    fn default() -> (r: Self)
        ensures
            default_security_config(r),
    {
        SecurityConfig {
            x_content_type_options: true,
            x_frame_options: owned("DENY"),
            x_xss_protection: true,
            strict_transport_security: false,
            hsts_max_age: 31536000,
        }
    }
}

/// The whole configuration.
#[derive(Clone, Debug)]
pub struct AppConfig {
    pub server: ServerConfig,
    pub cache: CacheConfig,
    pub compression: CompressionConfig,
    pub hotlink: HotlinkConfig,
    pub security: SecurityConfig,
}

impl Default for AppConfig {
    fn default() -> (r: Self)
        ensures
            default_server_config(r.server),
            default_cache_config(r.cache),
            default_compression_config(r.compression),
            default_hotlink_config(r.hotlink),
            default_security_config(r.security),
    {
        AppConfig {
            server: ServerConfig::default(),
            cache: CacheConfig::default(),
            compression: CompressionConfig::default(),
            hotlink: HotlinkConfig::default(),
            security: SecurityConfig::default(),
        }
    }
}

impl AppConfig {
    /// The default configuration.
    pub fn new() -> (r: Self)
        ensures
            default_server_config(r.server),
            default_cache_config(r.cache),
            default_compression_config(r.compression),
            default_hotlink_config(r.hotlink),
            default_security_config(r.security),
    {
        Self::default()
    }

    /// The same configuration serving files from `root_dir`.
    pub fn with_root_dir(self, root_dir: String) -> (r: Self)
        ensures
            r == (AppConfig { server: ServerConfig { root_dir: root_dir, ..self.server }, ..self }),
    {
        let mut c = self;
        c.server.root_dir = root_dir;
        c
    }

    /// The same configuration listening on `addr`.
    pub fn with_listen_addr(self, addr: String) -> (r: Self)
        ensures
            r == (AppConfig { server: ServerConfig { listen_addr: addr, ..self.server }, ..self }),
    {
        let mut c = self;
        c.server.listen_addr = addr;
        c
    }
}

/// `build_config`: the default configuration with the listen address,
/// root directory and the SPA and listing switches given on the command
/// line.
pub fn build_config(addr: &str, root: &str, spa: bool, dir_listing: bool) -> (r: AppConfig)
    ensures
        r.server.listen_addr@ == addr@,
        r.server.root_dir@ == root@,
        r.server.spa_fallback == spa,
        r.server.directory_listing == dir_listing,
        r.server.index_file@ == "index.html"@,
        r.server.directory_page_size == 100,
        !r.server.follow_symlinks,
        !r.server.serve_hidden_files,
        r.server.max_path_depth == 32,
        default_cache_config(r.cache),
        default_compression_config(r.compression),
        default_hotlink_config(r.hotlink),
        default_security_config(r.security),
{
    let mut config = AppConfig::new();
    config.server.listen_addr = owned(addr);
    config.server.root_dir = owned(root);
    config.server.spa_fallback = spa;
    config.server.directory_listing = dir_listing;
    config
}

} // verus!
