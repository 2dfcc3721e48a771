//! Profiles of a Clash client: reading a subscription, choosing how to fetch it,
//! and keeping the list of profiles with the one in use.

pub mod text;
pub mod outside;
pub mod profile;
pub mod headers;
pub mod url;
pub mod from_url;
pub mod fallback;
pub mod store;
pub mod update;
pub mod laws;
