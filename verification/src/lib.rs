//! Multi-vehicle PX4 fleet manager: the decision logic.
//!
//! Every module here is free of I/O. Sockets, processes, files, clocks and
//! floating-point geometry belong to the application around the library; they
//! reach it as plain values and take plain values back.

pub mod allocation;
pub mod allocation_laws;
pub mod catalog;
pub mod compile;
pub mod config;
pub mod crc;
pub mod engage;
pub mod events;
pub mod fleet;
pub mod float;
pub mod frame;
pub mod fsm;
pub mod history_laws;
pub mod json;
pub mod link;
pub mod link_laws;
pub mod listing;
pub mod messages;
pub mod mission;
pub mod modes;
pub mod operator;
pub mod operator_laws;
pub mod params;
pub mod registry;
pub mod replay;
pub mod replay_laws;
pub mod report_laws;
pub mod run_laws;
pub mod scenario;
pub mod setup;
pub mod simctl;
pub mod simproxy;
pub mod sitl;
pub mod slot;
pub mod stamp;
pub mod store;
pub mod store_laws;
pub mod supervisor;
pub mod supervisor_laws;
pub mod text;
pub mod ulog;
pub mod validation;
pub mod validation_laws;
pub mod vehicle;
pub mod version_check;
pub mod wire_laws;
