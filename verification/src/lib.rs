//! The verified core of an agent runtime.

pub mod adapters;
pub mod agent;
pub mod agent_loop;
pub mod api_retry;
pub mod capability;
pub mod chat;
pub mod checkpoint;
pub mod clock;
pub mod config;
pub mod context;
pub mod delegation;
pub mod directory;
pub mod errors;
pub mod ids;
pub mod isolation;
pub mod json;
pub mod lifecycle;
pub mod llm;
pub mod message;
pub mod orchestration;
pub mod order;
pub mod prompt;
pub mod result;
pub mod scope;
pub mod seqs;
pub mod session;
pub mod stored;
pub mod text;
pub mod tools;
