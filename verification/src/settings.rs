//! What the operator can set at startup.

use crate::supervisor::ShutdownSupervisor;
use crate::supervisor::SupervisorState;
use vstd::prelude::*;

verus! {

/// The port that is bound when none is given.
pub const DEFAULT_PORT: u16 = 8766;

/// The grace period, in milliseconds, when none is given.
pub const DEFAULT_EXIT_TIMER_MS: u32 = 60000;

/// The startup options.
#[derive(Debug)]
pub struct Settings {
    /// TCP port to bind, on all interfaces.
    pub port: u16,
    /// The directory whose entries are served and tracked.
    pub target_directory: String,
    /// How long to stay up after the pending set was seen empty, in
    /// milliseconds.
    pub exit_timer: u32,
}

impl Settings {
    /// Settings for `target_directory` with every other option at its
    /// default.
    pub fn new(target_directory: String) -> (settings: Self)
        ensures
            settings.port == DEFAULT_PORT,
            settings.target_directory == target_directory,
            settings.exit_timer == DEFAULT_EXIT_TIMER_MS,
    {
        Settings { port: DEFAULT_PORT, target_directory, exit_timer: DEFAULT_EXIT_TIMER_MS }
    }

    /// The same settings with the port set to `port`.
    pub fn with_port(self, port: u16) -> (settings: Self)
        ensures
            settings.port == port,
            settings.target_directory == self.target_directory,
            settings.exit_timer == self.exit_timer,
    {
        Settings { port, target_directory: self.target_directory, exit_timer: self.exit_timer }
    }

    /// The same settings with the grace period set to `exit_timer`
    /// milliseconds.
    pub fn with_exit_timer(self, exit_timer: u32) -> (settings: Self)
        ensures
            settings.port == self.port,
            settings.target_directory == self.target_directory,
            settings.exit_timer == exit_timer,
    {
        Settings { port: self.port, target_directory: self.target_directory, exit_timer }
    }

    /// A supervisor whose grace period is the configured exit timer.
    pub fn supervisor(&self) -> (supervisor: ShutdownSupervisor)
        ensures
            supervisor.state() == SupervisorState::Polling,
            supervisor.grace_period_ms() == self.exit_timer,
    {
        ShutdownSupervisor::new(self.exit_timer)
    }
}

} // verus!
