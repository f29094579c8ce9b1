//! The devices of a house, and what they can do.

pub mod device;
pub mod recorded;
pub mod retriable_switcher;
pub mod smartsocket;
pub mod thermometer;
pub mod types;
