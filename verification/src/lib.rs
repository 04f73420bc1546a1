//! The decisions of a desktop launcher for `dsh web`: how dsh is run, watched and stopped,
//! which settings, files, plugins and versions there are, and where downloads go.
//!
//! The library computes; processes, files, the network and the windows are the
//! application's. A decision that waits for something outside is a step function: the
//! application performs the action it was told and hands back what came of it.

pub mod text;
pub mod paths;
pub mod config;
pub mod exec;
pub mod resolve;
pub mod shell_path;
pub mod util;
pub mod json;
pub mod state;
pub mod service;
pub mod lifecycle;
pub mod updates;
pub mod market;
pub mod plugins;
pub mod download;
pub mod dsh_files;
pub mod window;
