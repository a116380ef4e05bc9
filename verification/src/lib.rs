//! Transparent TCP relay core of a user-space virtual network.
//!
//! The packet rewriter (`tcp_proxy`, over `packet`, `checksum` and
//! `nat_table`) redirects TCP packets from the overlay to a local listener
//! and disguises the answers. The relay engine (`relay`, over `flow`,
//! `drain`, `shutdown` and `buffer`) shuttles bytes between each accepted
//! connection and the connection it opens to the real destination.
//!
//! The engine touches no socket. It is a state machine: the loop that
//! drives it carries out one `event::Action` at a time and hands back the
//! `event::Event` that came of it. What holds of every run of the engine
//! is proved in `flow_laws` and `relay_laws`.

pub mod buffer;
pub mod checksum;
pub mod config;
pub mod drain;
pub mod event;
pub mod flow;
pub mod flow_laws;
pub mod nat_table;
pub mod packet;
pub mod relay;
pub mod relay_laws;
pub mod shutdown;
pub mod tcp_proxy;
