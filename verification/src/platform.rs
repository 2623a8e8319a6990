//! The platform the service runs on, its configuration, and the startup
//! strategy the two select.

use vstd::prelude::*;

verus! {

/// The family of operating system the service was built for.
#[derive(Clone, Copy, Debug, PartialEq, Eq, Structural)]
pub enum Platform {
    Unix,
    Windows,
}

/// The switches of the command line that the lifecycle depends on.
#[derive(Clone, Copy, Debug, PartialEq, Eq, Structural)]
pub struct Config {
    /// Write the log to a file in the log directory.
    pub log_to_file: bool,
    /// Put timestamps on the lines logged to standard output.
    pub log_stdout_timestamps: bool,
    /// Run under the platform's service manager.
    pub run_as_service: bool,
    /// Register the service with the platform's service manager and exit.
    pub register_service: bool,
}

/// The ways the process can run. Each runs to completion and yields an exit
/// status.
#[derive(Clone, Copy, Debug, PartialEq, Eq, Structural)]
pub enum StartupStrategy {
    /// Run the daemon in this process until it is told to stop.
    Standalone,
    /// Hand control to the platform's service manager.
    SystemService,
    /// Register the service and exit.
    RegisterService,
}

/// The strategy that a configuration selects on a platform. Only Windows
/// has a service manager; there, running as a service takes precedence
/// over registering one.
pub open spec fn select_strategy(config: Config, platform: Platform) -> StartupStrategy {
    if platform == Platform::Windows && config.run_as_service {
        StartupStrategy::SystemService
    } else if platform == Platform::Windows && config.register_service {
        StartupStrategy::RegisterService
    } else {
        StartupStrategy::Standalone
    }
}

/// Selects how the process runs on `platform` under `config`.
pub fn run_platform(config: &Config, platform: Platform) -> (strategy: StartupStrategy)
    ensures
        strategy == select_strategy(*config, platform),
        platform == Platform::Unix ==> strategy == StartupStrategy::Standalone,
{
    match platform {
        Platform::Unix => StartupStrategy::Standalone,
        Platform::Windows => {
            if config.run_as_service {
                StartupStrategy::SystemService
            } else if config.register_service {
                StartupStrategy::RegisterService
            } else {
                StartupStrategy::Standalone
            }
        },
    }
}

/// Whether a stale endpoint can be left behind on `platform`: a socket file
/// outlives the process that bound it, a named pipe does not.
pub open spec fn leaves_stale_endpoint(platform: Platform) -> bool {
    platform == Platform::Unix
}

/// Tells whether the endpoint of a crashed instance has to be removed
/// before binding on `platform`.
pub fn needs_endpoint_cleanup(platform: Platform) -> (needed: bool)
    ensures
        needed == leaves_stale_endpoint(platform),
{
    match platform {
        Platform::Unix => true,
        Platform::Windows => false,
    }
}

} // verus!
