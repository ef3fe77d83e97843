//! Models behind an operator dashboard for Named Data Networking forwarders.

pub mod audit;
pub mod client;
pub mod config;
pub mod engine;
pub mod extensions;
pub mod identity;
pub mod list;
pub mod model;
pub mod mutation;
pub mod network;
pub mod number;
pub mod observe;
pub mod operations;
pub mod order;
pub mod platform;
pub mod shell;
pub mod text;
pub mod tools;
