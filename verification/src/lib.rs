//! Conversation/session engine for a streaming chat-completion client.
//!
//! The engine keeps an ordered, user-editable history of (prompt, response)
//! exchanges with stable identities, runs at most one streaming session at a
//! time, normalizes two provider wire formats behind one adapter, and commits
//! or discards the tokens a session accumulated when it reaches a terminal
//! state.

pub mod adapter;
pub mod controller;
pub mod encode;
pub mod session;
pub mod settings;
pub mod store;
