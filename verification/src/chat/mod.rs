//! Conversations over the network: what is asked, what is told, and how the results of
//! tasks in the background come into a conversation.
pub mod delivery;
pub mod events;
pub mod guest;
pub mod requests;
pub mod settings;
pub mod turn;
pub mod views;
pub mod waker;
