//! What holds of the library as a whole, stated of what goes in and what comes
//! out.

pub mod app;
pub mod decode;
pub mod edit;
pub mod event_loop;
pub mod files;
pub mod ingest;
pub mod interactions;
pub mod keep;
pub mod keys;
pub mod launch;
pub mod markdown;
pub mod mount;
pub mod order;
pub mod outside;
pub mod path;
pub mod picker;
pub mod replay;
pub mod session;
pub mod show;
pub mod text;
pub mod views;
pub mod wire;
