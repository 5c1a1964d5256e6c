//! What the commands decide.

pub mod config_cmd;
pub mod deploy;
pub mod destroy;
pub mod image;
pub mod open;
pub mod play;
pub mod ps;
pub mod rm;
pub mod up;
pub mod verify;
