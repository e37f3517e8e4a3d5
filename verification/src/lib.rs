//! A bridge between SOCKS5 clients and an upstream HTTP proxy.
//!
//! The crate holds the decisions of the bridge and proves them: how the
//! username/password exchange is answered, which reply a command gets, what
//! is handed to the upstream handshake, and how the time of a connection is
//! accounted for. Sockets, clocks and logging belong to the program that
//! drives these functions.

pub mod auth;
pub mod connection;
pub mod listener;
pub mod run;
pub mod timing;
