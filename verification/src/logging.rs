//! Log levels and thresholds, the levels with which logging starts, the
//! line format of a record, where the log file lives on each platform, and
//! when the log file is rotated.

use crate::text::views_of;
use vstd::prelude::*;

verus! {

pub const APP_NAME: &'static str = "Watch Bells";

pub const LINUX_APP_NAME: &'static str = "watch-bells";

pub const LOG_FILE_NAME: &'static str = "watch-bells.log";

pub const OLD_LOG_FILE_NAME: &'static str = "watch-bells.old.log";

/// Size in bytes above which the log file is rotated.
pub const MAX_LOG_SIZE: u64 = 524288;

/// The severity of a log record.
#[derive(Clone, Copy, Debug, PartialEq, Eq, Structural)]
pub enum Level {
    Error,
    Warn,
    Info,
    Debug,
    Trace,
}

/// A threshold on severity: nothing, or records up to a level.
#[derive(Clone, Copy, Debug, PartialEq, Eq, Structural)]
pub enum LevelFilter {
    Off,
    Error,
    Warn,
    Info,
    Debug,
    Trace,
}

/// Verbosity of a level: errors are least verbose.
pub open spec fn level_rank(level: Level) -> int {
    match level {
        Level::Error => 1,
        Level::Warn => 2,
        Level::Info => 3,
        Level::Debug => 4,
        Level::Trace => 5,
    }
}

/// Verbosity of a threshold: off admits nothing.
pub open spec fn filter_rank(filter: LevelFilter) -> int {
    match filter {
        LevelFilter::Off => 0,
        LevelFilter::Error => 1,
        LevelFilter::Warn => 2,
        LevelFilter::Info => 3,
        LevelFilter::Debug => 4,
        LevelFilter::Trace => 5,
    }
}

fn level_verbosity(level: Level) -> (r: u8)
    ensures
        r == level_rank(level),
{
    match level {
        Level::Error => 1,
        Level::Warn => 2,
        Level::Info => 3,
        Level::Debug => 4,
        Level::Trace => 5,
    }
}

fn filter_verbosity(filter: LevelFilter) -> (r: u8)
    ensures
        r == filter_rank(filter),
{
    match filter {
        LevelFilter::Off => 0,
        LevelFilter::Error => 1,
        LevelFilter::Warn => 2,
        LevelFilter::Info => 3,
        LevelFilter::Debug => 4,
        LevelFilter::Trace => 5,
    }
}

/// The threshold of the persistent log file.
pub open spec fn persistent_level() -> LevelFilter {
    LevelFilter::Info
}

/// The threshold of the persistent log file: information and above.
pub fn persistent_level_filter() -> (r: LevelFilter)
    ensures
        r == persistent_level(),
{
    LevelFilter::Info
}

/// Whether `threshold` admits records of `level`.
pub open spec fn admits(level: Level, threshold: LevelFilter) -> bool {
    threshold != LevelFilter::Off && level_rank(level) <= filter_rank(threshold)
}

/// Whether `threshold` admits records of `level`.
pub fn level_enabled(level: Level, threshold: LevelFilter) -> (r: bool)
    ensures
        r == admits(level, threshold),
{
    threshold != LevelFilter::Off && level_verbosity(level) <= filter_verbosity(threshold)
}

/// Whether the logger takes a record of `level` at all: the log file or
/// standard error admits it.
pub fn record_enabled(level: Level, stderr_level: LevelFilter) -> (r: bool)
    ensures
        r == (admits(level, persistent_level()) || admits(level, stderr_level)),
{
    level_enabled(level, persistent_level_filter()) || level_enabled(level, stderr_level)
}

/// The threshold for standard error: debug when the `WATCH_BELLS_LOG`
/// variable is set, information when standard error is a terminal, else
/// nothing.
pub fn stderr_level(log_variable_set: bool, stderr_is_terminal: bool) -> (r: LevelFilter)
    ensures
        r == if log_variable_set {
            LevelFilter::Debug
        } else if stderr_is_terminal {
            LevelFilter::Info
        } else {
            LevelFilter::Off
        },
{
    if log_variable_set {
        LevelFilter::Debug
    } else if stderr_is_terminal {
        LevelFilter::Info
    } else {
        LevelFilter::Off
    }
}

/// Whether the application sets up logging at all: when the
/// `WATCH_BELLS_LOG` variable is set or standard error is a terminal.
pub fn should_enable_logging(log_variable_set: bool, stderr_is_terminal: bool) -> (r: bool)
    ensures
        r == (log_variable_set || stderr_is_terminal),
{
    if log_variable_set {
        return true;
    }
    stderr_is_terminal
}

/// The levels with which logging starts.
#[derive(Clone, Copy, Debug, PartialEq, Eq, Structural)]
pub struct LoggingLevels {
    /// Threshold for standard error.
    pub stderr_level: LevelFilter,
    /// Most verbose level any destination admits.
    pub max_level: LevelFilter,
}

/// The more verbose of two thresholds.
pub fn max_filter(a: LevelFilter, b: LevelFilter) -> (r: LevelFilter)
    ensures
        filter_rank(r) == if filter_rank(a) >= filter_rank(b) {
            filter_rank(a)
        } else {
            filter_rank(b)
        },
        r == a || r == b,
{
    if filter_verbosity(a) >= filter_verbosity(b) {
        a
    } else {
        b
    }
}

/// The levels with which logging is initialised: standard error by the
/// environment, and a maximum level that is the more verbose of the log
/// file's threshold and that of standard error.
pub fn initialise(log_variable_set: bool, stderr_is_terminal: bool) -> (r: LoggingLevels)
    ensures
        r.stderr_level == if log_variable_set {
            LevelFilter::Debug
        } else if stderr_is_terminal {
            LevelFilter::Info
        } else {
            LevelFilter::Off
        },
        filter_rank(r.max_level) == if filter_rank(r.stderr_level) > filter_rank(
            persistent_level(),
        ) {
            filter_rank(r.stderr_level)
        } else {
            filter_rank(persistent_level())
        },
{
    let stderr = stderr_level(log_variable_set, stderr_is_terminal);
    let max_level = max_filter(persistent_level_filter(), stderr);
    LoggingLevels { stderr_level: stderr, max_level }
}

/// The name of a level as log lines show it.
pub open spec fn level_name(level: Level) -> Seq<char> {
    match level {
        Level::Error => "ERROR"@,
        Level::Warn => "WARN"@,
        Level::Info => "INFO"@,
        Level::Debug => "DEBUG"@,
        Level::Trace => "TRACE"@,
    }
}

/// The name of a level as log lines show it.
pub fn level_text(level: Level) -> (r: &'static str)
    ensures
        r@ == level_name(level),
{
    match level {
        Level::Error => "ERROR",
        Level::Warn => "WARN",
        Level::Info => "INFO",
        Level::Debug => "DEBUG",
        Level::Trace => "TRACE",
    }
}

/// A log line: "<timestamp> <LEVEL> <message>" and a newline.
pub fn format_log_line_at(timestamp: &str, level: Level, message: &str) -> (r: String)
    ensures
        r@ == timestamp@ + " "@ + level_name(level) + " "@ + message@ + "\n"@,
{
    let mut line = String::from_str(timestamp);
    line.append(" ");
    line.append(level_text(level));
    line.append(" ");
    line.append(message);
    line.append("\n");
    line
}

/// Whether a log file of `size` bytes must be rotated.
pub fn needs_rotation(size: u64) -> (r: bool)
    ensures
        r == (size > MAX_LOG_SIZE),
{
    size > MAX_LOG_SIZE
}

/// The platforms with a known log location.
#[derive(Clone, Copy, Debug, PartialEq, Eq, Structural)]
pub enum Platform {
    Macos,
    Windows,
    Linux,
    Unsupported,
}

pub open spec fn view_of(path: Option<&str>) -> Option<Seq<char>> {
    match path {
        Some(p) => Some(p@),
        None => None,
    }
}

/// The log directory as a base directory followed by the components joined
/// to it: `~/Library/Logs/Watch Bells` on macOS, `%LOCALAPPDATA%\Watch
/// Bells` on Windows, and on Linux `$XDG_STATE_HOME/watch-bells` or else
/// `~/.local/state/watch-bells`.
pub open spec fn log_directory_parts(
    platform: Platform,
    home: Option<Seq<char>>,
    local_app_data: Option<Seq<char>>,
    xdg_state_home: Option<Seq<char>>,
) -> Option<Seq<Seq<char>>> {
    match platform {
        Platform::Macos => match home {
            Some(h) => Some(seq![h, "Library"@, "Logs"@, APP_NAME@]),
            None => None,
        },
        Platform::Windows => match local_app_data {
            Some(p) => Some(seq![p, APP_NAME@]),
            None => None,
        },
        Platform::Linux => match xdg_state_home {
            Some(p) => Some(seq![p, LINUX_APP_NAME@]),
            None => match home {
                Some(h) => Some(seq![h, ".local"@, "state"@, LINUX_APP_NAME@]),
                None => None,
            },
        },
        Platform::Unsupported => None,
    }
}

fn parts_of(items: &[&str]) -> (r: Vec<String>)
    ensures
        r@.len() == items@.len(),
        forall|i: int| 0 <= i < items@.len() ==> #[trigger] r@[i]@ == items@[i]@,
{
    let mut parts: Vec<String> = Vec::new();
    let mut i: usize = 0;
    while i < items.len()
        invariant
            i <= items@.len(),
            parts@.len() == i,
            forall|j: int| 0 <= j < i ==> #[trigger] parts@[j]@ == items@[j]@,
        decreases items@.len() - i,
    {
        parts.push(String::from_str(items[i]));
        i += 1;
    }
    parts
}

/// The log directory for a platform, given the usable home, local
/// application data and XDG state directories, as a base directory and the
/// components to join to it; none when the platform's base is missing.
pub fn log_directory_for(
    platform: Platform,
    home: Option<&str>,
    local_app_data: Option<&str>,
    xdg_state_home: Option<&str>,
) -> (r: Option<Vec<String>>)
    ensures
        match log_directory_parts(
            platform,
            view_of(home),
            view_of(local_app_data),
            view_of(xdg_state_home),
        ) {
            Some(parts) => r matches Some(v) && views_of(v@) == parts,
            None => r is None,
        },
{
    let r = match platform {
        Platform::Macos => match home {
            Some(h) => Some(parts_of(&[h, "Library", "Logs", APP_NAME])),
            None => None,
        },
        Platform::Windows => match local_app_data {
            Some(p) => Some(parts_of(&[p, APP_NAME])),
            None => None,
        },
        Platform::Linux => match xdg_state_home {
            Some(p) => Some(parts_of(&[p, LINUX_APP_NAME])),
            None => match home {
                Some(h) => Some(parts_of(&[h, ".local", "state", LINUX_APP_NAME])),
                None => None,
            },
        },
        Platform::Unsupported => None,
    };
    proof {
        if r is Some {
            let v = r->0;
            let parts = log_directory_parts(
                platform,
                view_of(home),
                view_of(local_app_data),
                view_of(xdg_state_home),
            )->0;
            assert(views_of(v@) =~= parts);
        }
    }
    r
}

/// Whether a path begins like an absolute path on some platform: with a
/// separator (`/` or `\`), or with a drive prefix such as `c:`.
pub open spec fn absolute_form(path: Seq<char>) -> bool {
    path.len() > 0 && (path[0] == '/' || path[0] == '\\' || (path.len() >= 2 && path[1] == ':'))
}

/// Whether a path is absolute, through `std::path::Path::is_absolute`. What
/// counts as absolute is the platform's rule, as its documentation gives
/// it: on Unix a path that starts with the root; on Windows a path with a
/// prefix (a drive such as `c:`, or one of the `\\` forms) followed by the
/// root. The claim is what both rules share: an absolute path begins with a
/// separator or has a drive letter and colon. Which such paths count is left
/// unsaid, since it differs by platform.
#[verifier::external_body]
fn path_is_absolute(path: &str) -> (r: bool)
    ensures
        r ==> absolute_form(path@),
{
    std::path::Path::new(path).is_absolute()
}

/// The base directory `path` when it is present, not empty, and
/// `absolute` says the platform counts it as absolute.
pub fn accept_base_path<'a>(path: Option<&'a str>, absolute: bool) -> (r: Option<&'a str>)
    ensures
        r == (if absolute && path is Some && path->0@.len() > 0 {
            path
        } else {
            None
        }),
{
    match path {
        Some(p) => if absolute && p.unicode_len() > 0 {
            Some(p)
        } else {
            None
        },
        None => None,
    }
}

/// A base directory from the environment that can hold the log: present,
/// not empty, and absolute by the platform's rule; a relative path such as
/// `logs` is refused on every platform.
pub fn usable_base_path<'a>(path: Option<&'a str>) -> (r: Option<&'a str>)
    ensures
        r matches Some(p) ==> path == Some(p) && p@.len() > 0 && absolute_form(p@),
        (path is None || path->0@.len() == 0) ==> r is None,
{
    match path {
        Some(p) => if p.unicode_len() > 0 {
            accept_base_path(path, path_is_absolute(p))
        } else {
            None
        },
        None => None,
    }
}

} // verus!
