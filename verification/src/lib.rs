//! The logic of the Sharp desktop assistant: text clean-up for speech and
//! web pages, keyboard and tool routing, the agent's turn decisions, the
//! streaming reply decoder, the transcript buffer and the conversation store.
pub mod text;
pub mod html;
pub mod sentences;
pub mod keys;
pub mod tools;
pub mod encoding;
pub mod skills;
pub mod web;
pub mod messages;
pub mod transcript;
pub mod sse;
pub mod history;
pub mod agent;
