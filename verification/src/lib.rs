//! Core engine of a media download queue: job lifecycle state machine,
//! single-worker FIFO scheduling, classification of downloader output lines,
//! progress extraction, cooperative cancellation decisions, and the pure
//! construction of everything the surrounding process runner needs (argument
//! lists, output templates, download URLs, library records, XML export text).
//!
//! All I/O — spawning the external downloader, reading its streams, the
//! persistent store, configuration files — lives outside this crate; the
//! functions here decide, from plain values, what that outer layer must do.

pub mod bundler;
pub mod classify;
pub mod cmdline;
pub mod config;
pub mod counting;
pub mod job;
pub mod library;
pub mod queue;
pub mod rekordbox;
pub mod status;
pub mod supervisor;
pub mod text;
