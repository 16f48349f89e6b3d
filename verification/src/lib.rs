//! Verified core of the StemRed desktop shell.
pub mod text;
pub mod transfer;
pub mod update_rules;
pub mod ids;
pub mod update;
pub mod update_laws;
pub mod links;
pub mod bootstrap;
pub mod secret;
pub mod notifications;
pub mod format;
pub mod files;
pub mod diagnostics;
pub mod activity;
pub mod taskbar;
pub mod shell;
