//! Verified core of a tool that creates and activates Python virtual
//! environments with `uv`, and of the plugin-aware `uv` wrapper that ships
//! beside it.
//!
//! Texts are modelled as character sequences (`text`), and every operation
//! states its result over that model.

pub mod text;
pub mod decimal;
pub mod order;
pub mod flags;
pub mod shell;
pub mod prompt;
pub mod completion;
pub mod plugins;
