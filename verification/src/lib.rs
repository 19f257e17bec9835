//! tokend: a multi-model tokenizer daemon's registry, chat templates,
//! configuration and transport replies, verified with Verus.

pub mod text;
pub mod json;
pub mod chat_template;
pub mod payloads;
pub mod config;
pub mod tokenizer;
pub mod server;
pub mod bench;
