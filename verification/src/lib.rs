//! fand: the decision logic of a Linux fan-control daemon, its client
//! protocol and its configuration, specified and proved with Verus.

pub mod channel_edit;
pub mod cli;
pub mod client;
pub mod config;
pub mod curve_edit;
pub mod control;
pub mod curve_graph;
pub mod edits;
pub mod engine;
pub mod eval;
pub mod failsafe;
pub mod gui_state;
pub mod hwmon;
pub mod hysteresis;
pub mod messages;
pub mod policy_edit;
pub mod proto;
pub mod ramp;
pub mod safety;
pub mod server;
pub mod smoothing;
pub mod text;
pub mod toml_doc;
pub mod trigger;
pub mod validate;
