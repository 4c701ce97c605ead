//! Game-world server logic for a UDP multiplayer service: the wire routes,
//! the registries of connected clients and replicated objects, and the
//! decisions the server takes for each datagram it receives.

pub mod definitions;
pub mod wire;
mod sources;
pub mod addr;
pub mod objects;
pub mod model;
pub mod server;
pub mod world;
pub mod responder;
pub mod bench;
pub mod bench_client;
pub mod laws;
