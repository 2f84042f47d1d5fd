//! The verified core of a terminal messenger for Telegram and WhatsApp.
pub mod audio;
pub mod backend;
pub mod config;
pub mod config_laws;
pub mod helpers;
pub mod jid;
pub mod keys;
pub mod layout;
pub mod order;
pub mod table;
pub mod text;
pub mod text_laws;
pub mod tui;
pub mod wording_laws;
