//! Typed htmx actions, partial responses and Basecoat widgets, rendered as
//! escaped HTML text.
mod text;
pub mod markup;
pub mod paths;
pub mod assets;
pub mod json;
pub mod partial;
pub mod action;
pub mod ui;
pub mod base_path;
pub mod fragment;
pub mod href;
pub mod bundler;
pub mod macros;
