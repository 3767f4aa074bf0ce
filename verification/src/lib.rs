//! Verified core of the CliDesk desktop backend: path confinement, file
//! listings and checks, Git porcelain parsing and query order, settings
//! validation, project registration, terminal session bookkeeping and
//! working directories, version handling, the launcher's decisions and
//! UTF-16 strings, and the tray's window actions.

pub mod text;
pub mod number;
pub mod models;
pub mod paths;
pub mod winpaths;
pub mod security;
pub mod clock;
pub mod file_service;
pub mod git_service;
pub mod settings_service;
pub mod app_info;
pub mod terminal_service;
pub mod terminal_cwd;
pub mod project_service;
pub mod launcher;
pub mod window;
pub mod database;
