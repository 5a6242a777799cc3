//! A verified core for a URL-shortening service: an in-memory token cache
//! that serves redirects, absorbs registrations, and accumulates per-token
//! hit counts that a periodic aggregator drains into durable storage.

pub mod cache;
pub mod errors;
pub mod laws;
pub mod paths;
pub mod token;
