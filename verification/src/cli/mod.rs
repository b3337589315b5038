//! Command-line commands whose decisions the library makes.
pub mod dev_mode_cmd;
