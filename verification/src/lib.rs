//! Account switching for the Codex CLI and desktop app.

pub mod accounts;
pub mod agent;
pub mod antigravity;
pub mod auth_file;
pub mod claims;
pub mod clock;
pub mod closing;
pub mod codex_app;
pub mod crypto;
pub mod encoding;
pub mod files;
pub mod headers;
pub mod json;
pub mod merging;
pub mod numerals;
pub mod pids;
pub mod process_list;
pub mod process_tree;
pub mod requests;
pub mod slim;
pub mod stats;
pub mod store;
pub mod text;
pub mod token_refresh;
pub mod tray;
pub mod types;
pub mod usage;
pub mod vault;
pub mod warmup;
pub mod windows_processes;
pub mod windows_roots;
pub mod windows_tree;
pub mod words;
