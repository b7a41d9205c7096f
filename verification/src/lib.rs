//! An edge HTTP handler that turns a user's public diary entries, fetched
//! from a fixed upstream JSON API, into an RSS 2.0 feed.
//!
//! The library holds every decision the handler makes: route matching,
//! construction of the upstream request body, decoding of the upstream JSON
//! response, feed assembly and RSS serialisation. The surrounding runtime
//! performs the actual HTTP traffic and hands the library plain strings.

pub mod strutil;
pub mod time;
pub mod entries;
pub mod json;
pub mod feed;
pub mod render;
pub mod router;
pub mod handler;
