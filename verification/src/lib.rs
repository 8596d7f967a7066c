//! Telemetry bridge core: the value model, keys, snapshot objects, the
//! datalog index, the time bridge, the client engine's decisions and the
//! client registry.

pub mod error;
pub mod value;
pub mod convert;
pub mod wire;
pub mod json;
pub mod key;
pub mod object;
pub mod datalog_value;
pub mod datalog;
pub mod query;
pub mod time_bridge;
pub mod text;
pub mod paths;
pub mod registry;
pub mod nt_types;
pub mod engine;
pub mod commands;
pub mod robot;
pub mod clock;
