//! Flashback: the decisions, texts and transitions of an episodic-memory
//! service, verified.
pub mod assemble;
pub mod assets;
pub mod bits;
pub mod config;
pub mod context;
pub mod core_memory;
pub mod dev_mode;
pub mod error;
pub mod handlers;
pub mod ids;
pub mod ingest;
pub mod json;
pub mod memory;
pub mod pages;
pub mod playground;
pub mod projection;
pub mod records;
pub mod service;
pub mod settings;
pub mod settings_api;
pub mod state;
pub mod state_routes;
pub mod statements;
pub mod stream;
pub mod summaries;
pub mod testsupport;
pub mod text;
pub mod time;
pub mod views;
