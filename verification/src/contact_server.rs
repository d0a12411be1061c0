//! The interfaces to the remote services the game talks to.

pub mod send_recieve;
