use vstd::prelude::*;

pub mod commands;
pub mod connect;
pub mod err;
pub mod hashes;
pub mod hex;
pub mod limbs;
pub mod lossy;
pub mod mailbox_factory;
pub mod mailbox_indexer_factory;
pub mod primitive_types;
pub mod rpc;
pub mod signing_key;
