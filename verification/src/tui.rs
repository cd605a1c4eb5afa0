//! The terminal interface.
pub mod app;
pub mod area;
pub mod dialog;
pub mod draw;
pub mod fit;
pub mod keymap;
pub mod laws;
pub mod pages;
pub mod paint;
pub mod render;
pub mod scrollbox;
pub mod stream_state;
pub mod welcome;
pub mod wrap;
