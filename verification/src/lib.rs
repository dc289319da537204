//! Decisions behind nearby management of a running network instance.

pub mod bridge;
pub mod call;
pub mod config_store;
pub mod host_server;
pub mod instance_id;
pub mod json;
pub mod keys;
pub mod listener;
pub mod overwrite;
pub mod packets;
pub mod paths;
pub mod queue;
pub mod service;
pub mod session;
pub mod sessions;
pub mod storage;
pub mod text;
