//! Switching WorkBuddy accounts: editions of the client, their files and sessions,
//! the switch itself, and a gateway that offers the accounts to OpenAI clients.

pub mod client_ctl;
pub mod edition;
pub mod edition_laws;
pub mod guard_laws;
pub mod json;
pub mod path;
pub mod proxy;
pub mod session;
pub mod switch;
pub mod switch_laws;
pub mod text;
pub mod text_laws;
pub mod webview_guard;
