//! The settings of the agent.

use crate::interface::cli::PID_FILE;
use crate::response::QUARANTINE_DIR;
use crate::text::{opt_text, texts};
use vstd::prelude::*;

verus! {

/// All settings.
#[derive(Debug, Clone)]
pub struct Config {
    pub agent: AgentConfig,
    pub storage: StorageConfig,
    pub collector: CollectorConfig,
    pub response: ResponseConfig,
    pub export: ExportConfig,
}

/// Where the agent keeps its files.
#[derive(Debug, Clone)]
pub struct AgentConfig {
    /// The file that holds the process of the daemon.
    pub pid_file: String,
    /// The directory for files in quarantine.
    pub quarantine_dir: String,
    /// The directory for logs.
    pub log_dir: String,
}

/// How events are stored.
#[derive(Debug, Clone)]
pub struct StorageConfig {
    /// The database.
    pub db_path: String,
    /// How many days events are kept.
    pub retention_days: u32,
    /// How many events are held in memory while the database cannot be reached.
    pub memory_buffer_size: usize,
}

/// What is watched.
#[derive(Debug, Clone)]
pub struct CollectorConfig {
    /// The watched paths.
    pub watched_paths: Vec<String>,
    /// The size of the ring buffer of the kernel side, in bytes.
    pub ring_buffer_size: usize,
    /// Whether connections are watched.
    pub network_monitoring: bool,
    /// A file with addresses of bad repute, one network in each line.
    pub ip_reputation_file: Option<String>,
    /// How many connections within ten seconds make a scan.
    pub network_scan_threshold: u32,
}

/// What is done about alerts.
#[derive(Debug, Clone)]
pub struct ResponseConfig {
    /// Whether actions are really carried out.
    pub active_mode: bool,
    /// Whether actions are logged.
    pub log_actions: bool,
}

/// Where alerts are sent.
#[derive(Debug, Clone)]
pub struct ExportConfig {
    /// The address that alerts are posted to.
    pub webhook_url: Option<String>,
    /// The file that alerts are appended to, one in each line.
    pub alert_log_file: Option<String>,
}

impl Default for Config {
    fn default() -> (config: Config)
        ensures
            config.agent.pid_file@ == "/run/edr.pid"@,
            config.agent.quarantine_dir@ == "/var/edr/quarantine"@,
            config.agent.log_dir@ == "/var/log/edr"@,
            config.storage.db_path@ == "/var/lib/edr/events.db"@,
            config.storage.retention_days == 30,
            config.storage.memory_buffer_size == 10_000,
            texts(config.collector.watched_paths@) == seq![
                "/etc/"@,
                "/root/.ssh/"@,
                "/home/"@,
                "/var/spool/cron/"@,
            ],
            config.collector.ring_buffer_size == 4 * 1024 * 1024,
            config.collector.network_monitoring,
            config.collector.ip_reputation_file is None,
            config.collector.network_scan_threshold == 50,
            !config.response.active_mode,
            config.response.log_actions,
            config.export.webhook_url is None,
            opt_text(config.export.alert_log_file) == Some("/var/log/edr/alerts.jsonl"@),
    {
        let mut watched_paths: Vec<String> = Vec::new();
        watched_paths.push("/etc/".to_owned());
        watched_paths.push("/root/.ssh/".to_owned());
        watched_paths.push("/home/".to_owned());
        watched_paths.push("/var/spool/cron/".to_owned());
        assert(texts(watched_paths@) =~= seq![
            "/etc/"@,
            "/root/.ssh/"@,
            "/home/"@,
            "/var/spool/cron/"@,
        ]);
        Config {
            agent: AgentConfig {
                pid_file: "/run/edr.pid".to_owned(),
                quarantine_dir: "/var/edr/quarantine".to_owned(),
                log_dir: "/var/log/edr".to_owned(),
            },
            storage: StorageConfig {
                db_path: "/var/lib/edr/events.db".to_owned(),
                retention_days: 30,
                memory_buffer_size: 10_000,
            },
            collector: CollectorConfig {
                watched_paths,
                ring_buffer_size: 4_194_304,
                network_monitoring: true,
                ip_reputation_file: None,
                network_scan_threshold: 50,
            },
            response: ResponseConfig { active_mode: false, log_actions: true },
            export: ExportConfig {
                webhook_url: None,
                alert_log_file: Some("/var/log/edr/alerts.jsonl".to_owned()),
            },
        }
    }
}

/// The settings that are given nowhere agree with the rest of the agent: its process and its
/// quarantine are where they are looked for, a scan is what the built-in rule takes for one, and
/// nothing is carried out or sent anywhere unless it is asked for.
pub proof fn law_default_settings(config: Config)
    requires
        call_ensures(Config::default, (), config),
    ensures
        config.agent.pid_file@ == PID_FILE@,
        config.agent.quarantine_dir@ == QUARANTINE_DIR@,
        config.collector.network_scan_threshold == 50,
        config.storage.retention_days == 30,
        config.storage.memory_buffer_size == 10_000,
        config.collector.ring_buffer_size == 4 * 1024 * 1024,
        !config.response.active_mode,
        config.response.log_actions,
        config.collector.network_monitoring,
        config.export.webhook_url is None,
        config.collector.ip_reputation_file is None,
        config.agent.log_dir@ == "/var/log/edr"@,
        config.storage.db_path@ == "/var/lib/edr/events.db"@,
        opt_text(config.export.alert_log_file) == Some("/var/log/edr/alerts.jsonl"@),
        texts(config.collector.watched_paths@) == seq![
            "/etc/"@,
            "/root/.ssh/"@,
            "/home/"@,
            "/var/spool/cron/"@,
        ],
{
}

} // verus!
