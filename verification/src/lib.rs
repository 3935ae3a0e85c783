//! A digital-signage service core: slide groups, slides and per-screen
//! content with soft-deletion lifecycles; the feed computation that turns
//! them into an ordered, time-aligned programme per screen; and the
//! deterministic playback selection that screens derive from the wall
//! clock alone.

pub mod api;
pub mod config;
pub mod domain;
pub mod dtos;
pub mod error;
pub mod feed;
pub mod files;
pub mod playback;
pub mod queries;
pub mod routes;
pub mod scheme;
pub mod session;
pub mod sort;
pub mod store;
pub mod stream;
pub mod text;
pub mod utils;
