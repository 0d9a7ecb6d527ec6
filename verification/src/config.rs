//! Runtime configuration for the exporter and its validation rules: an
//! authentication source must be present, the controller URL must carry an
//! HTTP scheme, intervals, timeout and port must be nonzero, and the log
//! level must be one of a fixed set (compared without regard to ASCII case).

use crate::strutil::has_prefix;
use crate::strutil::eq_ignore_ascii_upper;
use crate::strutil::lower_matches;
use crate::strutil::prefix_view;
use core::time::Duration;
use vstd::prelude::*;

verus! {

/// Relies on Duration::from_secs; a Duration is opaque here, so nothing is
/// claimed of the result.
pub assume_specification[ Duration::from_secs ](secs: u64) -> Duration;

/// Relies on Duration's Clone: Duration is Copy, so its clone is the same
/// value.
pub assume_specification[ <Duration as Clone>::clone ](d: &Duration) -> (r: Duration)
    ensures
        r == *d,
;

#[derive(Debug, Clone)]
pub struct Config {
    /// Controller URL, e.g. `https://192.168.1.1:8443`.
    pub controller_url: String,
    /// API key; used instead of username/password when present.
    pub api_key: Option<String>,
    /// Controller username, required when no API key is given.
    pub username: Option<String>,
    /// Controller password, required when no API key is given.
    pub password: Option<String>,
    /// Site name on the controller.
    pub site: String,
    /// Port the metrics endpoint listens on.
    pub port: u16,
    /// Poll interval in seconds.
    pub poll_interval: u64,
    /// Log level: trace, debug, info, warn or error.
    pub log_level: String,
    /// HTTP timeout in seconds.
    pub http_timeout: u64,
    /// Whether TLS certificates are verified.
    pub verify_ssl: bool,
}

/// Neither an API key nor a complete username/password pair is present.
pub open spec fn missing_auth(c: Config) -> bool {
    c.api_key is None && (c.username is None || c.password is None)
}

/// The URL carries an `http://` or `https://` scheme.
pub open spec fn valid_scheme(u: Seq<char>) -> bool {
    prefix_view(u, "http://"@) || prefix_view(u, "https://"@)
}

/// The log level, with ASCII upper case folded, is one of the five accepted
/// levels.
pub open spec fn valid_log_level(l: Seq<char>) -> bool {
    ||| lower_matches(l, "trace"@)
    ||| lower_matches(l, "debug"@)
    ||| lower_matches(l, "info"@)
    ||| lower_matches(l, "warn"@)
    ||| lower_matches(l, "error"@)
}

/// The first validation failure of a configuration, or `None` when it is
/// acceptable; checks run in a fixed order, so exactly one message can be
/// reported.
pub open spec fn config_error(c: Config) -> Option<Seq<char>> {
    if missing_auth(c) {
        Some("Either UNIFI_API_KEY or both UNIFI_USERNAME and UNIFI_PASSWORD must be provided"@)
    } else if c.controller_url@.len() == 0 {
        Some("UNIFI_CONTROLLER_URL cannot be empty"@)
    } else if !valid_scheme(c.controller_url@) {
        Some("UNIFI_CONTROLLER_URL must start with http:// or https://"@)
    } else if c.poll_interval == 0 {
        Some("POLL_INTERVAL must be greater than 0"@)
    } else if c.http_timeout == 0 {
        Some("HTTP_TIMEOUT must be greater than 0"@)
    } else if c.port == 0 {
        Some("METRICS_PORT cannot be 0"@)
    } else if !valid_log_level(c.log_level@) {
        Some("LOG_LEVEL must be one of: trace, debug, info, warn, error"@)
    } else {
        None
    }
}

impl Config {
    /// The poll interval as a Duration; the Duration itself is opaque to the
    /// verifier.
    pub fn poll_interval_duration(&self) -> Duration {
        Duration::from_secs(self.poll_interval)
    }

    /// The HTTP timeout as a Duration; the Duration itself is opaque to the
    /// verifier.
    pub fn http_timeout_duration(&self) -> Duration {
        Duration::from_secs(self.http_timeout)
    }

    /// Checks the configuration and reports the first rule it breaks.
    pub fn validate(&self) -> (r: Result<(), String>)
        ensures
            match config_error(*self) {
                Some(m) => r matches Err(e) && e@ == m,
                None => r is Ok,
            },
    {
        if self.api_key.is_none() && (self.username.is_none() || self.password.is_none()) {
            return Err(
                "Either UNIFI_API_KEY or both UNIFI_USERNAME and UNIFI_PASSWORD must be provided".to_owned(),
            );
        }
        if self.controller_url.as_str().is_empty() {
            return Err("UNIFI_CONTROLLER_URL cannot be empty".to_owned());
        }
        if !has_prefix(self.controller_url.as_str(), "http://") && !has_prefix(
            self.controller_url.as_str(),
            "https://",
        ) {
            return Err("UNIFI_CONTROLLER_URL must start with http:// or https://".to_owned());
        }
        if self.poll_interval == 0 {
            return Err("POLL_INTERVAL must be greater than 0".to_owned());
        }
        if self.http_timeout == 0 {
            return Err("HTTP_TIMEOUT must be greater than 0".to_owned());
        }
        if self.port == 0 {
            return Err("METRICS_PORT cannot be 0".to_owned());
        }
        let level = self.log_level.as_str();
        let level_ok = eq_ignore_ascii_upper(level, "trace") || eq_ignore_ascii_upper(
            level,
            "debug",
        ) || eq_ignore_ascii_upper(level, "info") || eq_ignore_ascii_upper(level, "warn")
            || eq_ignore_ascii_upper(level, "error");
        if !level_ok {
            return Err("LOG_LEVEL must be one of: trace, debug, info, warn, error".to_owned());
        }
        Ok(())
    }
}

} // verus!
