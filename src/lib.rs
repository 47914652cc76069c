//! Pane orchestration for a terminal multiplexer plugin: pane identities,
//! short selection labels, a throttled command queue, focus tracking and a
//! registry of independent per-tab workspaces.

pub mod config;
pub mod fzf;
pub mod host;
pub mod keybind;
pub mod labels;
pub mod pane;
pub mod parse;
pub mod picker;
pub mod project;
pub mod queue;
pub mod registry;
pub mod template;
pub mod text;
pub mod titles;
