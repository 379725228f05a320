//! Verified core of the Waybroker display stack: IPC data model, payload
//! transport, scene relay and reconciliation, damage-limited composition,
//! session supervision and watchdog bookkeeping.
pub mod text;
pub mod service;
pub mod accel;
pub mod pixel_transport;
pub mod profile;
pub mod ipc;
pub mod transport;
pub mod compd;
pub mod relay_link;
pub mod render;
pub mod composer;
pub mod cli;
pub mod service_config;
pub mod displayd;
pub mod display_state;
pub mod video;
pub mod lockd;
pub mod harness;
pub mod sessiond;
pub mod supervisor;
pub mod watchdog;
pub mod vulkan;
pub mod vulkan_ledger;
