//! A verified core for a static file server: request path validation,
//! content types and cache policy, HTTP dates, byte ranges, conditional
//! requests, content-coding negotiation, hotlink protection, directory
//! listings, the heads and bodies of responses, security headers and
//! server counters.
pub mod text;
pub mod num;
pub mod range;
pub mod datetime;
pub mod paths;
pub mod mime_util;
pub mod config;
pub mod pattern;
pub mod hotlink;
pub mod cache;
pub mod security;
pub mod directory;
pub mod metrics;
pub mod static_file;
pub mod security_headers;
