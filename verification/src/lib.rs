//! Verified core of a terminal client for isolated agent sessions.

pub mod activity;
pub mod agent;
pub mod answer;
pub mod app;
pub mod appserver;
pub mod clean;
pub mod client;
pub mod clipboard;
pub mod composer;
pub mod config;
pub mod event;
pub mod event_loop;
pub mod files;
pub mod help;
pub mod ingest;
pub mod insert;
pub mod interactions;
pub mod journal;
pub mod json;
pub mod key;
pub mod keys;
pub mod launch;
pub mod launcher;
pub mod laws;
pub mod loader;
pub mod markdown;
pub mod mount;
pub mod notes;
pub mod notices;
pub mod order;
pub mod outbox;
pub mod path;
pub mod paths;
pub mod picker;
pub mod preferences;
pub mod preview;
pub mod protocol;
pub mod raw;
pub mod references;
pub mod retry;
pub mod scroll;
pub mod session;
pub mod startup;
pub mod tag_picker;
pub mod tail;
pub mod text;
pub mod timeline;
pub mod workspace;
