//! Facts about the running system, and where the shell keeps its own
//! settings (the mark that the welcome screen was dismissed).
use vstd::prelude::*;

use crate::trusted::{join_path, path_join};

verus! {

/// What the telemetry panel shows.
pub struct SystemTelemetry {
    pub os_name: String,
    pub kernel: String,
    pub init_system: String,
    pub memory_used_mb: u64,
    pub memory_total_mb: u64,
    pub cpu_cores: usize,
    pub uptime_seconds: u64,
}

/// The telemetry of the system: its fixed description, and the number of
/// processors that can run in parallel (4 where that is not known).
pub fn system_telemetry(parallelism: Option<usize>) -> (t: SystemTelemetry)
    ensures
        t.os_name@ == "Devuan GNU/Linux 5 (daedalus)"@,
        t.kernel@ == "Linux 6.1.0-22-amd64 (Tauri Native Core)"@,
        t.init_system@ == "SysVinit (systemd-free)"@,
        t.memory_used_mb == 1140,
        t.memory_total_mb == 8192,
        t.cpu_cores == match parallelism {
            Some(n) => n,
            None => 4,
        },
        t.uptime_seconds == 7200,
{
    SystemTelemetry {
        os_name: "Devuan GNU/Linux 5 (daedalus)".to_owned(),
        kernel: "Linux 6.1.0-22-amd64 (Tauri Native Core)".to_owned(),
        init_system: "SysVinit (systemd-free)".to_owned(),
        memory_used_mb: 1140,
        memory_total_mb: 8192,
        cpu_cores: match parallelism {
            Some(n) => n,
            None => 4,
        },
        uptime_seconds: 7200,
    }
}

/// The shell's settings directory: `ankora` under the user's configuration
/// directory, or under `/root/.config` where there is none.
pub fn ankora_config_dir(config_dir: Option<String>) -> (dir: String)
    ensures
        dir@ == path_join(
            match config_dir {
                Some(d) => d@,
                None => "/root/.config"@,
            },
            "ankora"@,
        ),
{
    match config_dir {
        Some(d) => join_path(d.as_str(), "ankora"),
        None => join_path("/root/.config", "ankora"),
    }
}

/// The file whose presence means the welcome screen was dismissed for good.
pub fn welcome_lock_path(settings_dir: &str) -> (p: String)
    ensures
        p@ == path_join(settings_dir@, "welcomed.lock"@),
{
    join_path(settings_dir, "welcomed.lock")
}

/// What to write when the welcome screen is closed: the lock file and its
/// text when the user asked not to see it again, else nothing.
pub fn first_run_marker(dont_show_again: bool, settings_dir: &str) -> (r: Option<(String, String)>)
    ensures
        match r {
            Some((path, text)) => dont_show_again && path@ == path_join(settings_dir@, "welcomed.lock"@)
                && text@ == "ankora-v2-welcomed"@,
            None => !dont_show_again,
        },
{
    if dont_show_again {
        Some((welcome_lock_path(settings_dir), "ankora-v2-welcomed".to_owned()))
    } else {
        None
    }
}

} // verus!
