//! Protocol engine of an SMTP-to-chat relay: line assembly, the per-connection
//! session state machine, extraction and sanitizing of message text, and the
//! chunking of outbound text into messages of bounded size.

pub mod text;
pub mod chunk;
pub mod error;
pub mod line;
pub mod smtp;
pub mod session;
pub mod mail;
pub mod sanitize;
pub mod pipeline;
