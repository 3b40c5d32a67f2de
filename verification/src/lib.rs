//! Keeps an external playlist in step with the track links shared in one chat
//! channel, submitting every track identifier at most once.

pub mod engine;
pub mod extract;
pub mod laws;
pub mod membership;
pub mod message;
pub mod pipeline;
pub mod trace;
