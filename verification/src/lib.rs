pub mod capture;
pub mod capture_flow;
pub mod clipboard_read;
pub mod config;
pub mod data_transfer;
pub mod database;
pub mod databases;
pub mod dedup;
pub mod db_sequence;
pub mod deletion;
pub mod file_clipboard;
pub mod file_ops;
pub mod format_write;
pub mod handler;
pub mod import_swap;
pub mod hashing;
pub mod input_hook;
pub mod keystrokes;
pub mod keyword_context;
pub mod maintenance;
pub mod merge_paste;
pub mod migrations;
pub mod monitor;
pub mod numbers;
pub mod ordering;
pub mod paste_keys;
pub mod positioning;
pub mod preview;
pub mod proxy;
pub mod query;
pub mod shortcuts;
pub mod source_app;
pub mod sync_import;
pub mod text;
pub mod text_edit;
pub mod translate;
pub mod tray_i18n;
pub mod updater;
pub mod utils;
pub mod win_v;
