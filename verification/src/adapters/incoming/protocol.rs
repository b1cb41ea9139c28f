//! The request and response messages and their constants.
pub mod constants;
pub mod messages;
pub mod utils;
