//! Windows-style keyboard shortcuts for the Zed editor on macOS.
//!
//! - `bindings`: the catalog of bindings, grouped in categories.
//! - `output`: the documents the `/win-keys` slash command answers with.
//! - `keymap`: the keymap blocks the command line tool writes, and how they
//!   are merged into an existing keymap without touching the user's own.
//! - `jsonc`: removal of `//` and `/* */` comments and trailing commas from a
//!   keymap file.
//! - `escape`: text written inside JSON string literals, and read back.
//! - `layout`: how the slash command writes keymap blocks as JSON text, and
//!   how that text relates to the blocks the command line tool builds.
//! - `json_text`: JSON text parsed and written through serde_json.
//! - `cli`: the command line tool's listing, category choice and report.
//! - `backups`: recognising and ordering keymap backups.
//! - `grouping`, `order`, `json`, `text`: the shared pieces.

pub mod backups;
pub mod bindings;
pub mod escape;
pub mod cli;
pub mod grouping;
pub mod json;
pub mod json_text;
pub mod jsonc;
pub mod keymap;
pub mod layout;
pub mod order;
pub mod output;
pub mod text;
