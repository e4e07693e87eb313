//! Terminal session core: selection model, working-directory tracking,
//! session log and the screen model that a terminal front end is built on.

pub mod color;
pub mod cwd;
pub mod cwd_laws;
pub mod emulator;
pub mod extract;
pub mod extract_laws;
pub mod glyph;
pub mod input;
pub mod keys;
pub mod panels;
pub mod paths;
pub mod quickcmd;
pub mod render;
pub mod selection;
pub mod session;
pub mod terminal;
pub mod text;
pub mod vtlog;
pub mod vtlog_laws;
