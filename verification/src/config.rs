//! The application's settings: their defaults, how the values read from the
//! configuration file fill them, and how command-line overrides change them.

use vstd::prelude::*;
use vstd::string::*;
use crate::types::opt_view;
use crate::packaging::{join, join_path};

verus! {

/// The application's settings.
#[derive(Debug, Clone, PartialEq, Eq)]
pub struct AppConfig {
    pub log_level: String,
    pub oauth_redirect_port: u16,
    pub thumbnails_preload: usize,
    pub preload_threads: usize,
    pub sync_interval_minutes: u64,
    pub debug_console: bool,
    pub trace_spans: bool,
    pub detect_faces: bool,
    pub cache_path: String,
}

pub struct AppConfigView {
    pub log_level: Seq<char>,
    pub oauth_redirect_port: u16,
    pub thumbnails_preload: usize,
    pub preload_threads: usize,
    pub sync_interval_minutes: u64,
    pub debug_console: bool,
    pub trace_spans: bool,
    pub detect_faces: bool,
    pub cache_path: Seq<char>,
}

impl View for AppConfig {
    type V = AppConfigView;

    open spec fn view(&self) -> AppConfigView {
        AppConfigView {
            log_level: self.log_level@,
            oauth_redirect_port: self.oauth_redirect_port,
            thumbnails_preload: self.thumbnails_preload,
            preload_threads: self.preload_threads,
            sync_interval_minutes: self.sync_interval_minutes,
            debug_console: self.debug_console,
            trace_spans: self.trace_spans,
            detect_faces: self.detect_faces,
            cache_path: self.cache_path@,
        }
    }
}

/// Settings given on the command line: each `Some` value replaces the
/// configured one, and each `true` flag switches the setting on.
#[derive(Debug, Clone, PartialEq, Eq)]
pub struct AppConfigOverrides {
    pub log_level: Option<String>,
    pub oauth_redirect_port: Option<u16>,
    pub thumbnails_preload: Option<usize>,
    pub preload_threads: Option<usize>,
    pub sync_interval_minutes: Option<u64>,
    pub debug_console: bool,
    pub trace_spans: bool,
    pub detect_faces: bool,
}

/// The values found in the configuration file, each where present with the
/// expected type (integers as read, before narrowing).
#[derive(Debug, Clone, PartialEq, Eq)]
pub struct ConfigValues {
    pub log_level: Option<String>,
    pub oauth_redirect_port: Option<i64>,
    pub thumbnails_preload: Option<i64>,
    pub preload_threads: Option<i64>,
    pub sync_interval_minutes: Option<i64>,
    pub debug_console: Option<bool>,
    pub trace_spans: Option<bool>,
    pub detect_faces: Option<bool>,
    pub cache_path: Option<String>,
}

/// The settings directory under a home directory.
pub open spec fn settings_dir(home: Seq<char>) -> Seq<char> {
    join_path(home, ".googlepicz"@)
}

/// Where the configuration file is read from and saved to when no path is
/// given: `.googlepicz/config` under the home directory.
pub fn default_config_path(home: &str) -> (r: String)
    ensures
        r@ == join_path(settings_dir(home@), "config"@),
{
    let dir = join(home, ".googlepicz");
    join(dir.as_str(), "config")
}

/// The settings that the file's values give: each value where present
/// (integers narrowed as `as` narrows them), else its default: log level
/// `info`, redirect port 8080, 20 preloaded thumbnails, 4 preload threads,
/// a five-minute sync interval, switches off, and the settings directory
/// under the home directory as cache path.
pub open spec fn settings_from(v: ConfigValues, home: Seq<char>) -> AppConfigView {
    AppConfigView {
        log_level: match v.log_level {
            Some(l) => l@,
            None => "info"@,
        },
        oauth_redirect_port: match v.oauth_redirect_port {
            Some(p) => p as u16,
            None => 8080,
        },
        thumbnails_preload: match v.thumbnails_preload {
            Some(t) => t as usize,
            None => 20,
        },
        preload_threads: match v.preload_threads {
            Some(t) => t as usize,
            None => 4,
        },
        sync_interval_minutes: match v.sync_interval_minutes {
            Some(s) => s as u64,
            None => 5,
        },
        debug_console: match v.debug_console {
            Some(b) => b,
            None => false,
        },
        trace_spans: match v.trace_spans {
            Some(b) => b,
            None => false,
        },
        detect_faces: match v.detect_faces {
            Some(b) => b,
            None => false,
        },
        cache_path: match v.cache_path {
            Some(p) => p@,
            None => settings_dir(home),
        },
    }
}

/// The settings after the overrides: the given values replace, the set
/// flags switch on, everything else stays.
pub open spec fn overridden(c: AppConfigView, ov: AppConfigOverrides) -> AppConfigView {
    AppConfigView {
        log_level: match ov.log_level {
            Some(l) => l@,
            None => c.log_level,
        },
        oauth_redirect_port: match ov.oauth_redirect_port {
            Some(p) => p,
            None => c.oauth_redirect_port,
        },
        thumbnails_preload: match ov.thumbnails_preload {
            Some(t) => t,
            None => c.thumbnails_preload,
        },
        preload_threads: match ov.preload_threads {
            Some(t) => t,
            None => c.preload_threads,
        },
        sync_interval_minutes: match ov.sync_interval_minutes {
            Some(s) => s,
            None => c.sync_interval_minutes,
        },
        debug_console: c.debug_console || ov.debug_console,
        trace_spans: c.trace_spans || ov.trace_spans,
        detect_faces: c.detect_faces || ov.detect_faces,
        cache_path: c.cache_path,
    }
}

#[verifier::truncate]
fn narrow_u16(v: i64) -> (r: u16)
    ensures
        r == v as u16,
{
    v as u16
}

#[verifier::truncate]
fn narrow_usize(v: i64) -> (r: usize)
    ensures
        r == v as usize,
{
    v as usize
}

#[verifier::truncate]
fn narrow_u64(v: i64) -> (r: u64)
    ensures
        r == v as u64,
{
    v as u64
}

impl AppConfig {
    /// The settings that the configuration file's values give, with the
    /// defaults for what it does not hold (see `settings_from`).
    pub fn from_values(values: &ConfigValues, home: &str) -> (r: AppConfig)
        ensures
            r@ == settings_from(*values, home@),
    {
        let log_level = match &values.log_level {
            Some(l) => l.clone(),
            None => String::from_str("info"),
        };
        let oauth_redirect_port = match values.oauth_redirect_port {
            Some(p) => narrow_u16(p),
            None => 8080,
        };
        let thumbnails_preload = match values.thumbnails_preload {
            Some(t) => narrow_usize(t),
            None => 20,
        };
        let preload_threads = match values.preload_threads {
            Some(t) => narrow_usize(t),
            None => 4,
        };
        let sync_interval_minutes = match values.sync_interval_minutes {
            Some(s) => narrow_u64(s),
            None => 5,
        };
        let debug_console = match values.debug_console {
            Some(b) => b,
            None => false,
        };
        let trace_spans = match values.trace_spans {
            Some(b) => b,
            None => false,
        };
        let detect_faces = match values.detect_faces {
            Some(b) => b,
            None => false,
        };
        let cache_path = match &values.cache_path {
            Some(p) => p.clone(),
            None => join(home, ".googlepicz"),
        };
        AppConfig {
            log_level,
            oauth_redirect_port,
            thumbnails_preload,
            preload_threads,
            sync_interval_minutes,
            debug_console,
            trace_spans,
            detect_faces,
            cache_path,
        }
    }

    /// The settings with the command-line overrides applied (see
    /// `overridden`).
    pub fn apply_overrides(self, ov: &AppConfigOverrides) -> (r: AppConfig)
        ensures
            r@ == overridden(self@, *ov),
    {
        let mut c = self;
        match &ov.log_level {
            Some(l) => {
                c.log_level = l.clone();
            },
            None => {},
        }
        match ov.oauth_redirect_port {
            Some(p) => {
                c.oauth_redirect_port = p;
            },
            None => {},
        }
        match ov.thumbnails_preload {
            Some(t) => {
                c.thumbnails_preload = t;
            },
            None => {},
        }
        match ov.preload_threads {
            Some(t) => {
                c.preload_threads = t;
            },
            None => {},
        }
        match ov.sync_interval_minutes {
            Some(s) => {
                c.sync_interval_minutes = s;
            },
            None => {},
        }
        if ov.debug_console {
            c.debug_console = true;
        }
        if ov.trace_spans {
            c.trace_spans = true;
        }
        if ov.detect_faces {
            c.detect_faces = true;
        }
        c
    }
}

/// Applying no override leaves the settings as they are.
pub proof fn law_no_override_keeps_settings(c: AppConfigView, ov: AppConfigOverrides)
    requires
        ov.log_level is None,
        ov.oauth_redirect_port is None,
        ov.thumbnails_preload is None,
        ov.preload_threads is None,
        ov.sync_interval_minutes is None,
        !ov.debug_console,
        !ov.trace_spans,
        !ov.detect_faces,
    ensures
        overridden(c, ov) == c,
{
}

/// Applying the same overrides twice gives what applying them once gives.
pub proof fn law_overrides_idempotent(c: AppConfigView, ov: AppConfigOverrides)
    ensures
        overridden(overridden(c, ov), ov) == overridden(c, ov),
{
}

/// Every override that is given wins: a setting overridden with a value
/// takes that value, a flag switched on is on; a setting without an
/// override keeps its value, and the cache path is never overridden.
pub proof fn law_given_override_wins(c: AppConfigView, ov: AppConfigOverrides)
    ensures
        ov.log_level matches Some(l) ==> overridden(c, ov).log_level == l@,
        ov.log_level is None ==> overridden(c, ov).log_level == c.log_level,
        ov.oauth_redirect_port matches Some(p) ==> overridden(c, ov).oauth_redirect_port == p,
        ov.oauth_redirect_port is None ==> overridden(c, ov).oauth_redirect_port
            == c.oauth_redirect_port,
        ov.thumbnails_preload matches Some(t) ==> overridden(c, ov).thumbnails_preload == t,
        ov.thumbnails_preload is None ==> overridden(c, ov).thumbnails_preload
            == c.thumbnails_preload,
        ov.preload_threads matches Some(t) ==> overridden(c, ov).preload_threads == t,
        ov.preload_threads is None ==> overridden(c, ov).preload_threads == c.preload_threads,
        ov.sync_interval_minutes matches Some(m) ==> overridden(c, ov).sync_interval_minutes == m,
        ov.sync_interval_minutes is None ==> overridden(c, ov).sync_interval_minutes
            == c.sync_interval_minutes,
        ov.debug_console ==> overridden(c, ov).debug_console,
        !ov.debug_console ==> overridden(c, ov).debug_console == c.debug_console,
        ov.trace_spans ==> overridden(c, ov).trace_spans,
        !ov.trace_spans ==> overridden(c, ov).trace_spans == c.trace_spans,
        ov.detect_faces ==> overridden(c, ov).detect_faces,
        !ov.detect_faces ==> overridden(c, ov).detect_faces == c.detect_faces,
        overridden(c, ov).cache_path == c.cache_path,
{
}

} // verus!
