//! The interfaces between the broker and what surrounds it.
pub mod incoming;
pub mod outgoing;
