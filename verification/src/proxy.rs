//! The IMAP proxy's own logic: its configuration and the capabilities it lets through.

pub mod config;
pub mod forward;
pub mod util;
