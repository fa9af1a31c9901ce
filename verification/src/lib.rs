//! Decision logic of a Telegram bot that answers with stock photos or chat replies.
pub mod config;
pub mod database;
pub mod error;
pub mod keyboards;
pub mod openai;
pub mod pexels;
pub mod routes;
pub mod text;
pub mod types;
