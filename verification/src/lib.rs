//! Core of Aili, a terminal chat client.
pub mod chat;
pub mod config;
pub mod json;
pub mod logo;
pub mod provider;
pub mod secrets;
pub mod stream;
pub mod style;
pub mod text;
pub mod tui;
pub mod width;
pub mod wizard;
