use vstd::prelude::*;

pub mod text;
pub mod event;
pub mod policy;
pub mod risk;
pub mod glob;
pub mod eventlog;
pub mod config;
pub mod buffer;
pub mod collector;
pub mod identity;
pub mod transport;
pub mod agent;
pub mod simulator;
