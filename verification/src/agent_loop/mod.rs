//! The turns of an agent: what is sent to the model, what is done with its answer, and
//! how a run is stored and taken up again.
pub mod entry;
pub mod resume;
pub mod turn;
pub mod types;
