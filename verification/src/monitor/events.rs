//! The events and alerts of the monitor.

use crate::common::Severity;
use crate::number::{decimal, to_decimal};
use crate::time::Timestamp;
use vstd::prelude::*;

verus! {

/// Something that the monitor saw.
#[derive(Debug, Clone)]
pub enum Event {
    /// A program was executed.
    Process(ProcessEvent),
    /// A watched file was touched.
    File(FileEvent),
    /// A connection was made.
    Network(NetworkEvent),
}

/// A program was executed.
#[derive(Debug, Clone)]
pub struct ProcessEvent {
    pub pid: u32,
    pub uid: u32,
    pub exe: String,
    pub timestamp: Timestamp,
}

/// A watched file was touched.
#[derive(Debug, Clone)]
pub struct FileEvent {
    pub path: String,
    pub operation: String,
    pub timestamp: Timestamp,
}

/// A connection was made.
#[derive(Debug, Clone)]
pub struct NetworkEvent {
    pub pid: u32,
    pub dst_ip: String,
    pub dst_port: u16,
    pub timestamp: Timestamp,
}

impl Event {
    /// The name of the kind of event.
    pub open spec fn kind_text(self) -> Seq<char> {
        match self {
            Event::Process(_) => "process"@,
            Event::File(_) => "file"@,
            Event::Network(_) => "network"@,
        }
    }

    /// When the event happened.
    pub open spec fn time_of(self) -> Timestamp {
        match self {
            Event::Process(e) => e.timestamp,
            Event::File(e) => e.timestamp,
            Event::Network(e) => e.timestamp,
        }
    }

    /// The event in one line.
    pub open spec fn summary_text(self) -> Seq<char> {
        match self {
            Event::Process(e) => "EXEC  pid="@ + decimal(e.pid as nat) + " uid="@ + decimal(
                e.uid as nat,
            ) + " "@ + e.exe@,
            Event::File(e) => "FILE  ["@ + e.operation@ + "] "@ + e.path@,
            Event::Network(e) => "NET   pid="@ + decimal(e.pid as nat) + " → "@ + e.dst_ip@
                + ":"@ + decimal(e.dst_port as nat),
        }
    }

    /// The name of the kind of event.
    pub fn kind(&self) -> (s: &'static str)
        ensures
            s@ == self.kind_text(),
    {
        match self {
            Event::Process(_) => "process",
            Event::File(_) => "file",
            Event::Network(_) => "network",
        }
    }

    /// When the event happened.
    pub fn timestamp(&self) -> (timestamp: Timestamp)
        ensures
            timestamp == self.time_of(),
    {
        match self {
            Event::Process(e) => e.timestamp,
            Event::File(e) => e.timestamp,
            Event::Network(e) => e.timestamp,
        }
    }

    /// The event in one line.
    pub fn summary(&self) -> (s: String)
        ensures
            s@ == self.summary_text(),
    {
        match self {
            Event::Process(e) => {
                let mut s = "EXEC  pid=".to_owned();
                s.push_str(to_decimal(e.pid as u64).as_str());
                s.push_str(" uid=");
                s.push_str(to_decimal(e.uid as u64).as_str());
                s.push_str(" ");
                s.push_str(e.exe.as_str());
                s
            },
            Event::File(e) => {
                let mut s = "FILE  [".to_owned();
                s.push_str(e.operation.as_str());
                s.push_str("] ");
                s.push_str(e.path.as_str());
                s
            },
            Event::Network(e) => {
                let mut s = "NET   pid=".to_owned();
                s.push_str(to_decimal(e.pid as u64).as_str());
                s.push_str(" → ");
                s.push_str(e.dst_ip.as_str());
                s.push_str(":");
                s.push_str(to_decimal(e.dst_port as u64).as_str());
                s
            },
        }
    }
}

/// What the monitor reports.
#[derive(Debug, Clone)]
pub struct Alert {
    pub rule: String,
    pub severity: Severity,
    pub message: String,
    pub timestamp: Timestamp,
    pub event_json: String,
}

/// What an alert of the monitor holds.
#[verifier::ext_equal]
pub struct AlertView {
    pub rule: Seq<char>,
    pub severity: Severity,
    pub message: Seq<char>,
    pub timestamp: Timestamp,
    pub event_json: Seq<char>,
}

impl View for Alert {
    type V = AlertView;

    open spec fn view(&self) -> AlertView {
        AlertView {
            rule: self.rule@,
            severity: self.severity,
            message: self.message@,
            timestamp: self.timestamp,
            event_json: self.event_json@,
        }
    }
}

/// What each alert of a list holds.
pub open spec fn alert_views(alerts: Seq<Alert>) -> Seq<AlertView> {
    alerts.map_values(|a: Alert| a@)
}

} // verus!
