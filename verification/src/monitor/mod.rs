//! The small monitor: a few sources, a few rules, one list of alerts.

pub mod detector;
pub mod ebpf;
pub mod events;
pub mod files;
pub mod laws;
pub mod network;
pub mod storage;
pub mod tui;
