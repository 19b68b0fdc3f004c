//! Proxy-listing conversion library.
//!
//! Reads line-oriented proxy descriptors of the form `<ip>:<port>[:<type>]`,
//! validates and deduplicates them into typed records, and renders the
//! resulting configuration document (a `proxies` list, one selector group
//! and a fixed catch-all rule) as YAML text.

pub mod collect;
pub mod config;
pub mod digits;
pub mod ip;
pub mod paths;
pub mod pipeline;
pub mod ptype;
pub mod record;
pub mod text;
pub mod yaml;
