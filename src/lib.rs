//! A minimal agent loop: a conversation with a remote chat service whose replies
//! may ask for local file tools to run, driven round by round to an answer or to
//! a round budget.

pub mod conversation;
pub mod engine;
pub mod tools;
