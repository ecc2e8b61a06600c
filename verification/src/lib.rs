//! Verified core of the SnipeSpotter inventory service.

pub mod text;
pub mod sha256;
pub mod model;
pub mod json;
pub mod path;
pub mod journal;
pub mod recovery;
pub mod instant;
pub mod operation_id;
pub mod transition;
pub mod snapshot;
pub mod evidence;
pub mod sync_engine;
pub mod config;
pub mod ipc;
pub mod lifecycle;
pub mod status;
pub mod scheduler;
pub mod fsm;
pub mod client;
pub mod discovery;
pub mod failure;
pub mod gather;
pub mod checkin;
pub mod owner;
pub mod startup;
pub mod temporary;
pub mod atomic_file;
pub mod identity;
pub mod acl;
pub mod logging;
pub mod platform;
pub mod service;
