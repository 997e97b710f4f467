//! Library for a keyboard-driven terminal torrent client with a ratio-boost
//! tracker announcer.
pub mod unicode;
pub mod strings;
pub mod numbers;
pub mod input;
pub mod types;
pub mod bencode;
pub mod spoofer;
pub mod app;
pub mod tui;
pub mod engine;
pub mod view;
