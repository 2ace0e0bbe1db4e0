//! The immutable configuration snapshot shared by every part of the relay.

use vstd::prelude::*;

verus! {

/// How the notification source is driven: a push subscription that yields one
/// event at a time, or a periodic poll that samples a batch.
#[derive(Clone, Copy, Debug, PartialEq, Eq, Structural)]
pub enum NotificationStrategy {
    Listener,
    Polling,
}

/// Mathematical image of a configuration snapshot.
#[verifier::ext_equal]
pub ghost struct ConfigView {
    pub port: usize,
    pub host: Seq<char>,
    pub notification_strategy: NotificationStrategy,
    pub polling_rate: u64,
    pub dynamic_timeout: bool,
    pub default_timeout: u64,
    pub reading_speed: u64,
    pub min_timeout: u64,
    pub max_timeout: u64,
    pub skipped_apps: Seq<Seq<char>>,
}

impl ConfigView {
    /// A snapshot is well formed when the clamp range for dynamic timeouts is
    /// non-empty.
    pub open spec fn wf(self) -> bool {
        self.min_timeout <= self.max_timeout
    }
}

/// One immutable snapshot of the tunables, loaded once at startup and shared
/// read-only with every loop.
///
/// Durations are whole numbers: `polling_rate` is in milliseconds, the four
/// timeout fields are in seconds of display time, and `reading_speed` is in
/// words per minute.
pub struct NotifierConfig {
    pub port: usize,
    pub host: String,
    pub notification_strategy: NotificationStrategy,
    pub polling_rate: u64,
    pub dynamic_timeout: bool,
    pub default_timeout: u64,
    pub reading_speed: u64,
    pub min_timeout: u64,
    pub max_timeout: u64,
    pub skipped_apps: Vec<String>,
}

impl View for NotifierConfig {
    type V = ConfigView;

    open spec fn view(&self) -> ConfigView {
        ConfigView {
            port: self.port,
            host: self.host@,
            notification_strategy: self.notification_strategy,
            polling_rate: self.polling_rate,
            dynamic_timeout: self.dynamic_timeout,
            default_timeout: self.default_timeout,
            reading_speed: self.reading_speed,
            min_timeout: self.min_timeout,
            max_timeout: self.max_timeout,
            skipped_apps: self.skipped_apps@.map_values(|s: String| s@),
        }
    }
}

/// The built-in defaults, used when no persisted configuration exists.
pub open spec fn spec_default_config() -> ConfigView {
    ConfigView {
        port: 42069,
        host: "localhost"@,
        notification_strategy: NotificationStrategy::Listener,
        polling_rate: 250,
        dynamic_timeout: true,
        default_timeout: 5,
        reading_speed: 238,
        min_timeout: 2,
        max_timeout: 120,
        skipped_apps: Seq::empty(),
    }
}

impl Default for NotifierConfig {
    fn default() -> (c: Self)
        ensures
            c@ == spec_default_config(),
    {
        let c = NotifierConfig {
            port: 42069,
            host: "localhost".to_owned(),
            notification_strategy: NotificationStrategy::Listener,
            polling_rate: 250,
            dynamic_timeout: true,
            default_timeout: 5,
            reading_speed: 238,
            min_timeout: 2,
            max_timeout: 120,
            skipped_apps: Vec::new(),
        };
        proof {
            assert(c@ =~= spec_default_config());
        }
        c
    }
}

} // verus!
