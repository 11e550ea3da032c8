//! The sequential core of a hot-reload pipeline for server-rendered UI
//! templates, and the configuration of the server that renders them.
//!
//! A watcher reports recompiled templates; the core remembers each one once,
//! publishes the latest to any number of subscribers, and stops for good on a
//! shutdown request. Nothing here blocks, locks or suspends: the embedding
//! program owns the locks, the wake-ups and the process, and asks this crate
//! what to do at each step.

pub mod cache;
pub mod channel;
pub mod hot_reload;
pub mod index_html;
pub mod init;
pub mod serve_config;
pub mod template;
