//! The tools of an agent: which it has, how its calls are guarded, and what they
//! return.
pub mod defs;
pub mod dispatch;
pub mod guardrails;
pub mod resolution;
