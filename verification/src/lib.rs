//! The verified core of `ponder`, a small command-line client for
//! OpenAI-compatible chat completion endpoints.
pub mod text;
pub mod cli;
pub mod config;
pub mod client;
pub mod session;
pub mod stream;
pub mod tools;
pub mod ui;
