//! A multi-node object storage gateway: each node serves buckets of objects
//! from its own disk, and a shared directory records which node holds each
//! object so that any node can redirect a read to the owner.
pub mod text;
pub mod local_store;
pub mod descriptor;
pub mod api;
pub mod directory;
pub mod resolver;
pub mod config;
