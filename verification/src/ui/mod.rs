//! Widgets rendered from the server.
pub mod basecoatui;
