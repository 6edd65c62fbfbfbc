//! What the collectors read: reports of the kernel side, file notifications, `/proc`.

pub mod ebpf;
pub mod fanotify;
pub mod hasher;
pub mod network_laws;
pub mod network_proc;
pub mod proc_enricher;
pub mod proc_laws;
pub mod report_laws;
