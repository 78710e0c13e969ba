//! The gateway: accounts behind an interface that OpenAI clients understand.

pub mod account;
pub mod account_laws;
pub mod aggregate;
pub mod chat;
pub mod chat_laws;
pub mod config;
pub mod event_laws;
pub mod frame;
pub mod frame_laws;
pub mod lifecycle;
pub mod models;
pub mod models_laws;
pub mod pool;
pub mod pool_laws;
pub mod pump;
pub mod reply;
pub mod role_laws;
pub mod stream_laws;
pub mod upstream;
pub mod usage;
pub mod usage_laws;
