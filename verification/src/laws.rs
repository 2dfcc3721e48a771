//! What the operations are for, stated of all inputs in terms of what goes in and what comes out.

pub mod text;
pub mod url;
pub mod from_url;
pub mod fallback;
pub mod profile;
pub mod store;
pub mod update;
pub mod calls;
