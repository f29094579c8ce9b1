//! A smart house: rooms and their devices, the wire protocol of its outlets,
//! the readings of its thermometers, and the report on all of them.

pub mod admin;
pub mod connection;
pub mod devices;
pub mod directory;
pub mod errors;
pub mod formatter;
pub mod house;
pub mod outlet;
pub mod pattern;
pub mod protocol;
pub mod receiver;
pub mod report;
pub mod room;
pub mod sender;
pub mod text;
