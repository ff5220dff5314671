//! Handing tasks to sub-agents and bringing their results back.
pub mod background;
pub mod control;
pub mod delivery;
pub mod heartbeat;
pub mod job;
pub mod listing;
pub mod manager;
pub mod recovery;
pub mod registry;
pub mod schema;
pub mod spawn_args;
pub mod types;
pub mod wakes;
