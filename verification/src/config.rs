//! The settings of a display.

use vstd::prelude::*;
use crate::clock::{Span, NANOS_PER_SECOND};

verus! {

/// The settings of a display.
#[derive(Debug, Clone, PartialEq, Eq)]
pub struct Settings {
    /// The address of the service that lists the events.
    pub api_url: String,
    pub window_width: i32,
    pub window_height: i32,
    /// For how many seconds one slide is shown.
    pub slide_interval_seconds: u64,
    /// After how many minutes the list of events is loaded again.
    pub refresh_interval_minutes: u64,
}

impl Settings {
    /// For how many nanoseconds one slide is shown.
    pub open spec fn slide_nanos(&self) -> nat {
        (self.slide_interval_seconds * NANOS_PER_SECOND) as nat
    }

    /// After how many nanoseconds the list of events is loaded again.
    pub open spec fn refresh_nanos(&self) -> nat {
        (self.refresh_interval_minutes * 60 * NANOS_PER_SECOND) as nat
    }

    /// For how long one slide is shown.
    pub fn slide_interval(&self) -> (span: Span)
        ensures
            span@ == self.slide_nanos(),
    {
        Span::from_secs(self.slide_interval_seconds)
    }

    /// After how long the list of events is loaded again.
    pub fn refresh_interval(&self) -> (span: Span)
        ensures
            span@ == self.refresh_nanos(),
    {
        Span::from_minutes(self.refresh_interval_minutes)
    }
}

impl Default for Settings {
    /// A full-HD window, a new slide every ten seconds, a new list every five
    /// minutes.
    fn default() -> (settings: Settings)
        ensures
            settings.api_url@ == "https://api.rockvilletollandsda.church"@,
            settings.window_width == 1920,
            settings.window_height == 1080,
            settings.slide_interval_seconds == 10,
            settings.refresh_interval_minutes == 5,
    {
        Settings {
            api_url: "https://api.rockvilletollandsda.church".to_owned(),
            window_width: 1920,
            window_height: 1080,
            slide_interval_seconds: 10,
            refresh_interval_minutes: 5,
        }
    }
}

} // verus!
