use dl_omni::config::{ConfigManager, PartialConfig};
use dl_omni::models::TaskStatus;
use dl_omni::progress::{final_report, finish_outcome, may_start, transfer_complete};
use std::path::PathBuf;

#[test]
fn default_settings() {
    let c = ConfigManager::default_config("/home/u/Downloads".to_string());
    assert_eq!(c.default_download_path, "/home/u/Downloads");
    assert_eq!(c.max_concurrent_tasks, 3);
    assert_eq!(c.max_threads_per_task, 16);
    assert_eq!(c.proxy_url, "");
    assert_eq!(c.theme, "system");
    assert!(c.yt_dlp_version.is_none());
    assert!(!c.split_audio_video);
    assert_eq!(c.video_quality, "best");
    assert_eq!(c.audio_quality, "best");
    assert!(!c.use_cookie);
    assert!(!c.include_metadata);
}

fn nothing_saved() -> PartialConfig {
    PartialConfig {
        default_download_path: None,
        max_concurrent_tasks: None,
        max_threads_per_task: None,
        proxy_url: None,
        theme: None,
        yt_dlp_version: None,
        split_audio_video: None,
        video_quality: None,
        audio_quality: None,
        use_cookie: None,
        include_metadata: None,
        naming_template: None,
        sniff_blacklist: None,
    }
}

#[test]
fn init_keeps_saved_fields_and_fills_missing_ones() {
    let mut saved = nothing_saved();
    saved.theme = Some("dark".to_string());
    saved.default_download_path = Some("/saved".to_string());
    saved.max_threads_per_task = Some(4);
    saved.use_cookie = Some(true);
    let m = ConfigManager::init(PathBuf::from("/cfg/config.json"), Some(saved), "/fallback".to_string());
    assert_eq!(m.settings.theme, "dark");
    assert_eq!(m.settings.default_download_path, "/saved");
    assert_eq!(m.settings.max_threads_per_task, 4);
    assert!(m.settings.use_cookie);
    assert_eq!(m.settings.max_concurrent_tasks, 3);
    assert_eq!(m.settings.video_quality, "best");
    assert_eq!(m.settings.naming_template, "");
    assert_eq!(m.config_path(), &PathBuf::from("/cfg/config.json"));
}

#[test]
fn init_without_saved_settings_uses_defaults() {
    let d = ConfigManager::init(PathBuf::from("/cfg/config.json"), None, "/fallback".to_string());
    assert_eq!(d.settings.default_download_path, "/fallback");
    let e = ConfigManager::init(PathBuf::from("/cfg/config.json"), Some(nothing_saved()), "/fallback".to_string());
    assert_eq!(e.settings.default_download_path, "/fallback");
    assert_eq!(e.settings.theme, "system");
    assert_eq!(e.settings.max_threads_per_task, 16);
}

#[test]
fn update_replaces_settings_only() {
    let mut m = ConfigManager::init(PathBuf::from("/c.json"), None, "/d".to_string());
    let mut next = m.settings.clone();
    next.max_threads_per_task = 4;
    m.update(next);
    assert_eq!(m.settings.max_threads_per_task, 4);
    assert_eq!(m.config_path(), &PathBuf::from("/c.json"));
}

#[test]
fn finished_task_reports() {
    assert_eq!(finish_outcome(&Ok(500), 10), (TaskStatus::Completed, 500));
    assert_eq!(finish_outcome(&Err("x".to_string()), 10), (TaskStatus::Error, 10));
    let r = final_report("id", &Ok(500), 10);
    assert_eq!(r.id, "id");
    assert_eq!(r.status, TaskStatus::Completed);
    assert_eq!(r.downloaded_bytes, 500);
    assert_eq!(r.total_bytes, 500);
    assert_eq!(r.eta, 0);
    let e = final_report("id", &Err("boom".to_string()), 10);
    assert_eq!(e.status, TaskStatus::Error);
    assert_eq!(e.total_bytes, 10);
}

#[test]
fn transfer_complete_needs_a_known_size() {
    assert!(transfer_complete(10, 10));
    assert!(transfer_complete(10, 11));
    assert!(!transfer_complete(10, 9));
    assert!(!transfer_complete(0, 5));
}

#[test]
fn downloads_start_only_below_the_limit() {
    assert!(may_start(0, 3));
    assert!(may_start(2, 3));
    assert!(!may_start(3, 3));
    assert!(may_start(0, 0));
    assert!(!may_start(1, 0));
}
