//! The agent's settings: defaults, what a configuration file overrides, and
//! the name under which this host sends.

use vstd::prelude::*;
use crate::text::opt_view;

verus! {

/// The poll interval where the configuration names none: one second.
pub const DEFAULT_POLL_INTERVAL_MS: u64 = 1000;

/// The mathematical value of a [`DaemonConfig`].
pub struct ConfigView {
    pub server_url: Seq<char>,
    pub poll_interval_ms: u64,
    pub hostname: Seq<char>,
    pub verify_ssl: bool,
}

/// The settings of the agent.
#[derive(Debug)]
pub struct DaemonConfig {
    /// The server that snapshots go to where peers are not discovered.
    pub server_url: String,
    /// The time between two looks at the clipboard, in milliseconds.
    pub poll_interval_ms: u64,
    /// The name under which this host sends.
    pub hostname: String,
    /// Whether a server's certificate is checked against a trust root.
    pub verify_ssl: bool,
}

impl View for DaemonConfig {
    type V = ConfigView;

    open spec fn view(&self) -> ConfigView {
        ConfigView {
            server_url: self.server_url@,
            poll_interval_ms: self.poll_interval_ms,
            hostname: self.hostname@,
            verify_ssl: self.verify_ssl,
        }
    }
}

/// The mathematical value of a [`ConfigOverrides`].
pub struct OverridesView {
    pub server_url: Option<Seq<char>>,
    pub poll_interval_ms: Option<u64>,
    pub hostname: Option<Seq<char>>,
    pub verify_ssl: Option<bool>,
}

/// What a configuration file sets: each setting is present only if the file
/// names it.
#[derive(Debug)]
pub struct ConfigOverrides {
    pub server_url: Option<String>,
    pub poll_interval_ms: Option<u64>,
    pub hostname: Option<String>,
    pub verify_ssl: Option<bool>,
}

impl View for ConfigOverrides {
    type V = OverridesView;

    open spec fn view(&self) -> OverridesView {
        OverridesView {
            server_url: opt_view(self.server_url),
            poll_interval_ms: self.poll_interval_ms,
            hostname: opt_view(self.hostname),
            verify_ssl: self.verify_ssl,
        }
    }
}

/// The view of overrides that may be absent.
pub open spec fn opt_overrides(file: Option<ConfigOverrides>) -> Option<OverridesView> {
    match file {
        Some(overrides) => Some(overrides@),
        None => None,
    }
}

/// The settings that hold where nothing is configured.  The host name is
/// empty: it is still to be resolved.
pub open spec fn default_config() -> ConfigView {
    ConfigView {
        server_url: "https://localhost:8443"@,
        poll_interval_ms: DEFAULT_POLL_INTERVAL_MS,
        hostname: Seq::<char>::empty(),
        verify_ssl: false,
    }
}

/// The settings `base` with every setting replaced that `overrides` names.
pub open spec fn overridden(base: ConfigView, overrides: OverridesView) -> ConfigView {
    ConfigView {
        server_url: match overrides.server_url {
            Some(url) => url,
            None => base.server_url,
        },
        poll_interval_ms: match overrides.poll_interval_ms {
            Some(interval) => interval,
            None => base.poll_interval_ms,
        },
        hostname: match overrides.hostname {
            Some(name) => name,
            None => base.hostname,
        },
        verify_ssl: match overrides.verify_ssl {
            Some(verify) => verify,
            None => base.verify_ssl,
        },
    }
}

/// The name under which this host sends: the configured one unless it is
/// empty, else the one from the environment, else the one that the system
/// reports, else `unknown`.
pub open spec fn resolved_hostname(
    configured: Seq<char>,
    env_host: Option<Seq<char>>,
    os_host: Option<Seq<char>>,
) -> Seq<char> {
    if configured.len() > 0 {
        configured
    } else {
        match env_host {
            Some(name) => name,
            None => match os_host {
                Some(name) => name,
                None => "unknown"@,
            },
        }
    }
}

/// The settings that a configuration gives: the defaults, overridden by the
/// file where there is one, with the host name resolved.
pub open spec fn loaded_config(
    file: Option<OverridesView>,
    env_host: Option<Seq<char>>,
    os_host: Option<Seq<char>>,
) -> ConfigView {
    let merged = match file {
        Some(overrides) => overridden(default_config(), overrides),
        None => default_config(),
    };
    ConfigView {
        server_url: merged.server_url,
        poll_interval_ms: merged.poll_interval_ms,
        hostname: resolved_hostname(merged.hostname, env_host, os_host),
        verify_ssl: merged.verify_ssl,
    }
}

/// Resolves the name under which this host sends.
pub fn resolve_hostname(configured: String, env_host: Option<String>, os_host: Option<String>) -> (name:
    String)
    ensures
        name@ == resolved_hostname(configured@, opt_view(env_host), opt_view(os_host)),
{
    if configured.as_str().unicode_len() > 0 {
        return configured;
    }
    match env_host {
        Some(name) => name,
        None => match os_host {
            Some(name) => name,
            None => "unknown".to_owned(),
        },
    }
}

impl DaemonConfig {
    /// The settings that hold where nothing is configured.
    pub fn defaults() -> (config: DaemonConfig)
        ensures
            config@ == default_config(),
    {
        DaemonConfig {
            server_url: "https://localhost:8443".to_owned(),
            poll_interval_ms: DEFAULT_POLL_INTERVAL_MS,
            hostname: String::new(),
            verify_ssl: false,
        }
    }

    /// These settings with every setting replaced that `overrides` names.
    pub fn apply(self, overrides: ConfigOverrides) -> (config: DaemonConfig)
        ensures
            config@ == overridden(self@, overrides@),
    {
        DaemonConfig {
            server_url: match overrides.server_url {
                Some(url) => url,
                None => self.server_url,
            },
            poll_interval_ms: match overrides.poll_interval_ms {
                Some(interval) => interval,
                None => self.poll_interval_ms,
            },
            hostname: match overrides.hostname {
                Some(name) => name,
                None => self.hostname,
            },
            verify_ssl: match overrides.verify_ssl {
                Some(verify) => verify,
                None => self.verify_ssl,
            },
        }
    }
}

/// The agent's settings, from what the configuration file holds, if it could
/// be read, and the host names that the environment and the system give.
pub fn load_daemon_config(
    file: Option<ConfigOverrides>,
    env_host: Option<String>,
    os_host: Option<String>,
) -> (config: DaemonConfig)
    ensures
        config@ == loaded_config(opt_overrides(file), opt_view(env_host), opt_view(os_host)),
{
    let merged = match file {
        Some(overrides) => DaemonConfig::defaults().apply(overrides),
        None => DaemonConfig::defaults(),
    };
    DaemonConfig {
        server_url: merged.server_url,
        poll_interval_ms: merged.poll_interval_ms,
        hostname: resolve_hostname(merged.hostname, env_host, os_host),
        verify_ssl: merged.verify_ssl,
    }
}

} // verus!
