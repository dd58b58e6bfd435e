//! The event-application engine and its surrounding types.

pub mod accounts;
pub mod machine;
pub mod errors;
pub mod events;
pub mod laws;
