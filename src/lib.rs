//! Dated journal entries: a path/date template engine, the planning side of
//! mirroring entries into a git repository, and bulk import of dated entries.

pub mod text;
pub mod placeholders;
pub mod matcher;
pub mod render;
pub mod config;
pub mod auth;
pub mod journal;
pub mod sync_plan;
pub mod import;
pub mod sync;
pub mod resp;
pub mod settings;
pub mod upload;
pub mod roundtrip;
