use std::path::{Path, PathBuf};
use watch_bells::logging::{
    format_log_line_at, initialise, level_enabled, log_directory_for, needs_rotation,
    accept_base_path, record_enabled, should_enable_logging, stderr_level, usable_base_path, Level, LevelFilter,
    Platform, APP_NAME, LINUX_APP_NAME, MAX_LOG_SIZE,
};

fn as_path(parts: Option<Vec<String>>) -> Option<PathBuf> {
    parts.map(|parts| {
        let mut path = PathBuf::from(&parts[0]);
        for part in &parts[1..] {
            path = path.join(part);
        }
        path
    })
}

#[test]
fn log_directory_uses_platform_conventions() {
    let home = Path::new("/home/tester");
    let local_app_data = Path::new("/local/app-data");
    let xdg_state_home = Path::new("/state");

    assert_eq!(
        as_path(log_directory_for(Platform::Macos, Some("/home/tester"), None, None)),
        Some(home.join("Library").join("Logs").join(APP_NAME))
    );
    assert_eq!(
        as_path(log_directory_for(Platform::Windows, None, Some("/local/app-data"), None)),
        Some(local_app_data.join(APP_NAME))
    );
    assert_eq!(
        as_path(log_directory_for(Platform::Linux, Some("/home/tester"), None, Some("/state"))),
        Some(xdg_state_home.join(LINUX_APP_NAME))
    );
    assert_eq!(
        as_path(log_directory_for(Platform::Linux, Some("/home/tester"), None, None)),
        Some(home.join(".local").join("state").join(LINUX_APP_NAME))
    );
}

#[test]
fn log_directory_rejects_unusable_environment_paths() {
    let relative = "relative";
    let empty = "";

    assert!(usable_base_path(Some(relative)).is_none());
    assert!(usable_base_path(Some(empty)).is_none());
}

#[test]
fn log_directory_requires_the_platform_base_directory() {
    assert_eq!(log_directory_for(Platform::Macos, None, None, None), None);
    assert_eq!(log_directory_for(Platform::Windows, None, None, None), None);
    assert_eq!(log_directory_for(Platform::Linux, None, None, None), None);
    assert_eq!(log_directory_for(Platform::Unsupported, None, None, None), None);
}

#[test]
fn rotation_starts_only_above_the_size_limit() {
    assert!(!needs_rotation(MAX_LOG_SIZE));
    assert!(needs_rotation(MAX_LOG_SIZE + 1));
}

#[test]
fn persistent_and_stderr_thresholds_are_independent() {
    assert!(level_enabled(Level::Error, LevelFilter::Info));
    assert!(level_enabled(Level::Warn, LevelFilter::Info));
    assert!(level_enabled(Level::Info, LevelFilter::Info));
    assert!(!level_enabled(Level::Debug, LevelFilter::Info));
    assert!(level_enabled(Level::Debug, LevelFilter::Debug));
    assert!(!level_enabled(Level::Info, LevelFilter::Off));
}

#[test]
fn log_line_format_is_human_readable() {
    assert_eq!(
        format_log_line_at(
            "2026-08-23T12:31:04-07:00",
            Level::Warn,
            "Skipping stale scheduler boundary"
        ),
        "2026-08-23T12:31:04-07:00 WARN Skipping stale scheduler boundary\n"
    );
}

#[test]
fn absolute_base_paths_are_usable() {
    assert_eq!(usable_base_path(Some("/home/tester")), Some("/home/tester"));
    assert_eq!(usable_base_path(None), None);
}

#[test]
fn log_file_half_a_mebibyte_is_the_limit() {
    assert_eq!(MAX_LOG_SIZE, 512 * 1024);
    assert!(!needs_rotation(0));
}

#[test]
fn stderr_threshold_follows_the_environment() {
    assert_eq!(stderr_level(true, false), LevelFilter::Debug);
    assert_eq!(stderr_level(true, true), LevelFilter::Debug);
    assert_eq!(stderr_level(false, true), LevelFilter::Info);
    assert_eq!(stderr_level(false, false), LevelFilter::Off);
}

#[test]
fn initial_levels_keep_info_in_the_file_and_debug_when_asked() {
    let quiet = initialise(false, false);
    assert_eq!(quiet.stderr_level, LevelFilter::Off);
    assert_eq!(quiet.max_level, LevelFilter::Info);
    let debugging = initialise(true, false);
    assert_eq!(debugging.stderr_level, LevelFilter::Debug);
    assert_eq!(debugging.max_level, LevelFilter::Debug);
    assert_eq!(initialise(false, true).max_level, LevelFilter::Info);
}

#[test]
fn debug_records_reach_only_an_interested_stderr() {
    assert!(!record_enabled(Level::Debug, LevelFilter::Info));
    assert!(record_enabled(Level::Debug, LevelFilter::Debug));
    assert!(record_enabled(Level::Info, LevelFilter::Off));
    assert!(!record_enabled(Level::Trace, LevelFilter::Debug));
}

#[test]
fn logging_is_enabled_by_variable_or_terminal() {
    assert!(should_enable_logging(true, false));
    assert!(should_enable_logging(false, true));
    assert!(!should_enable_logging(false, false));
}

#[test]
fn base_path_needs_presence_content_and_absoluteness() {
    assert_eq!(accept_base_path(Some("/var/state"), true), Some("/var/state"));
    assert_eq!(accept_base_path(Some("/var/state"), false), None);
    assert_eq!(accept_base_path(Some(""), true), None);
    assert_eq!(accept_base_path(None, true), None);
}
