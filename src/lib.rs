//! Field-data collection core: point catalog, read-block planning, register
//! codec, downlink write planning, device lifecycle and the latest-value hub.

pub mod catalog;
pub mod point;
pub mod block;
pub mod codec;
pub mod write_plan;
pub mod lifecycle;
pub mod runner;
pub mod center;
pub mod config;
pub mod device;
