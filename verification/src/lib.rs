//! The view engine of a socket dashboard: it turns snapshots of a host's TCP
//! and UDP sockets into a filtered, sorted list that a cursor walks.

pub mod app;
pub mod connection;
pub mod filter;
pub mod header;
pub mod layout;
pub mod ordering;
pub mod pattern;
pub mod pipeline;
pub mod protocol;
pub mod socket;
pub mod table;
pub mod tabs;
pub mod text;
pub mod utils;
