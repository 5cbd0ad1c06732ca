//! Core shared domain models, item-list rules, CSV interchange and backup framing.
//!
//! - `models`: themes, priorities, items, the item collection and the application state.
//! - `text`: character-level text handling shared by the parsers.
//! - `export`: the CSV engine, the JSON input check and the error type of the engines.
//! - `backup`: compression of serialized state for backups.
//! - `listing`: search and filter rules of the item list and the item form.
//! - `storage`: storage tiers and the diagnostics shown about them.
//! - `laws`, `round_trip`: properties that relate the operations.

pub mod backup;
pub mod export;
pub mod laws;
pub mod listing;
pub mod models;
pub mod round_trip;
pub mod storage;
pub mod text;

pub use export::{export_to_csv, import_from_csv, json_import_text, ExportError};
pub use models::{AppConfig, AppState, Item, ItemCollection, Priority, ThemeMode};
