//! The logic of a terminal client for GoCD pipelines.

pub mod api;
pub mod app;
pub mod clock;
pub mod completion;
pub mod config;
pub mod demo;
pub mod dup;
pub mod editor;
pub mod github;
pub mod inspect;
pub mod model;
pub mod names;
pub mod notify;
pub mod text;
pub mod ui;
pub mod unicode;
