use ankora::system::{ankora_config_dir, first_run_marker, system_telemetry, welcome_lock_path};

#[test]
fn telemetry() {
    let t = system_telemetry(Some(12));
    assert_eq!(t.os_name, "Devuan GNU/Linux 5 (daedalus)");
    assert_eq!(t.cpu_cores, 12);
    assert_eq!(t.memory_total_mb, 8192);
    assert_eq!(system_telemetry(None).cpu_cores, 4);
}

#[test]
fn settings_paths() {
    assert_eq!(ankora_config_dir(Some("/home/u/.config".to_string())), "/home/u/.config/ankora");
    assert_eq!(ankora_config_dir(None), "/root/.config/ankora");
    assert_eq!(welcome_lock_path("/root/.config/ankora"), "/root/.config/ankora/welcomed.lock");
}

#[test]
fn first_run_marker_only_when_asked() {
    assert_eq!(first_run_marker(false, "/c"), None);
    assert_eq!(
        first_run_marker(true, "/c"),
        Some(("/c/welcomed.lock".to_string(), "ankora-v2-welcomed".to_string()))
    );
}
