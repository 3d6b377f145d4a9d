//! Building conventional commit messages from an interactive question flow.

pub mod config;
pub mod text;
pub mod choices;
pub mod answers;
pub mod history;
pub mod commit;
pub mod questions;
pub mod header;
