use vstd::prelude::*;

pub mod branchdb;
pub mod checks;
pub mod config;
pub mod config_store;
pub mod daemon_service;
pub mod doctor;
pub mod dply;
pub mod dply_cmd;
pub mod error;
pub mod fan;
pub mod fpm;
pub mod helper;
pub mod ipc;
pub mod json;
pub mod keel;
pub mod local;
pub mod logs;
pub mod mail;
pub mod node;
pub mod output;
pub mod parity;
pub mod paths;
pub mod seams;
pub mod php;
pub mod sites;
pub mod spec;
pub mod spx;
pub mod text;
pub mod valet;
pub mod xdebug;

verus! {

/// Version of the CLI-to-daemon wire protocol.
pub const PROTOCOL_VERSION: u32 = 1;

} // verus!
