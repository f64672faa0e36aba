pub mod text;
pub mod callsign;
pub mod payloads;
pub mod frame;
pub mod session;
pub mod hub;
pub mod supervisor;
pub mod identity;
pub mod hostfile;
pub mod reflectors;
pub mod dht;
pub mod config;
