//! Verified core of chira: the rules behind a scratch-directory manager.
pub mod text;
pub mod clock;
pub mod archive;
pub mod sweep;
pub mod path;
pub mod i18n;
pub mod scratch;
pub mod config;
pub mod settings;
pub mod app;
pub mod external;
pub mod cmdline;
pub mod cli;
pub mod ui;
