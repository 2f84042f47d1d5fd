//! The terminal interface: state, key handling, and what is drawn.
pub mod chat;
pub mod chat_laws;
pub mod chat_model;
pub mod chat_update_laws;
pub mod chat_widget;
pub mod image;
pub mod key_laws;
pub mod line;
pub mod list_state;
pub mod message_laws;
pub mod open_chat_laws;
pub mod pane_laws;
pub mod player;
pub mod popup;
pub mod run;
pub mod screen_laws;
pub mod screens;
pub mod search;
pub mod session_laws;
pub mod ui;
