//! The decisions behind a music player's search bar, artist page and local lyrics lookup,
//! written as verified state machines and pure functions. The user interface, file access and
//! background work that drive them live outside this crate.

pub mod model;
pub mod text;
pub mod powerbar;
pub mod presentation;
pub mod artist;
pub mod lyrics;
