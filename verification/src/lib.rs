//! A DHCP server core, verified with Verus.
//!
//! The crate holds what a DHCP server decides and computes, and nothing of
//! what it does to the world: no socket, no file, no clock. A program
//! around it receives the datagrams, reads the time and the files, and
//! hands them over as plain values.
//!
//! - [`packet`] and [`options`] read and write DHCP messages.
//! - [`dhcpd`] is the server: the lease table, the pool, and the step it
//!   takes on each message.
//! - [`store`] fills the lease table at startup and lists it for saving.
//! - [`server`] builds replies and chooses where they go.
//! - [`statics`] and [`text`] read the file of static assignments.
//! - [`args`] reads the command line, [`config`] holds the configuration.
//! - [`laws`] and [`wire_laws`] state what holds whatever the input is.

pub mod addr;
pub mod args;
pub mod config;
pub mod dhcpd;
pub mod laws;
pub mod lease;
pub mod options;
pub mod packet;
pub mod server;
pub mod statics;
pub mod store;
pub mod text;
pub mod wire_laws;
