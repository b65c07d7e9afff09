//! Templates rendered from positional parameters and clipboard text,
//! together with the text handling, prompt construction and storage
//! rules around them.

pub mod text;
pub mod openai;
pub mod template_service;
pub mod store;
pub mod cli;
pub mod timestamp;
