//! A weighted round-robin pool of backend servers and the decisions of a TCP relay that
//! forwards one request to the chosen backend and one reply back.

pub mod balancers;
pub mod config;
pub mod json;
pub mod load_balancer;
pub mod relay;
pub mod rotation;
pub mod server;
pub mod shared;
pub mod socket_address;
pub mod weight;
