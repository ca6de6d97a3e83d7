//! Routing core of a load balancer for game servers.
//!
//! The balancer accepts clients, answers their status requests, lets them
//! log in and then sends them on to a server. This crate holds what the
//! balancer decides: how an address text is read and resolved, which
//! service record and which server are chosen, when the servers are asked
//! for their player counts, and what each packet of a client leads to.
//! Sockets, the name service and the packet codec belong to the program
//! around it, which asks the crate what to do next and reports back what it
//! found.

pub mod address_resolver;
pub mod backend;
pub mod config;
pub mod connection;
pub mod finder;
pub mod geo_api;
pub mod protocol;
pub mod region_table;
pub mod srv;
pub mod status;
pub mod text;
