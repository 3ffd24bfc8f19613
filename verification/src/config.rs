//! The settings of the bridge.

use vstd::prelude::*;

verus! {

/// How the bridge authenticates to the publish/subscribe layer.
#[derive(Debug, Clone, Copy, PartialEq, Eq, Structural)]
pub enum Auth {
    Anonymous,
    Kerberos,
}

/// The most verbose level of message that is logged.
#[derive(Debug, Clone, Copy, PartialEq, Eq, Structural)]
pub enum LevelFilter {
    Off,
    Error,
    Warn,
    Info,
    Debug,
    Trace,
}

/// The settings read at start-up.
#[derive(Debug, Clone, Copy, PartialEq, Eq, Structural)]
pub struct Config {
    pub log_level: LevelFilter,
    pub auth_mechanism: Auth,
}

impl Default for Config {
    /// Logging off, Kerberos authentication.
    fn default() -> (r: Config)
        ensures
            r == (Config { log_level: LevelFilter::Off, auth_mechanism: Auth::Kerberos }),
    {
        Config { log_level: LevelFilter::Off, auth_mechanism: Auth::Kerberos }
    }
}

} // verus!
