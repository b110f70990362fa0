//! Honeypot moderation logic: guild configuration, its CSV file format, and the
//! decisions taken on gateway events.
pub mod text;
pub mod config;
pub mod event_handler;
