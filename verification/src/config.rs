//! The configuration a run works from: static fallback sunrise/sunset
//! times, and location settings for the automatic lookup. Loaded from a
//! settings file by the surrounding program; absent settings take the
//! compiled-in defaults below.

use vstd::prelude::*;

use crate::time::Time;

verus! {

/// Sunrise/sunset times used when location-based lookup is disabled or
/// unavailable.
#[derive(Clone, Copy, Debug)]
pub struct Fallback {
    pub sunrise: Time,
    pub sunset: Time,
}

impl Fallback {
    /// Whether both times are real times of day.
    pub open spec fn wf(self) -> bool {
        self.sunrise.valid() && self.sunset.valid()
    }
}

impl Default for Fallback {
    /// The compiled-in fallback: sunrise 06:30, sunset 18:30.
    fn default() -> (r: Fallback)
        ensures
            r.sunrise == (Time { hour: 6, minute: 30, second: 0 }),
            r.sunset == (Time { hour: 18, minute: 30, second: 0 }),
            r.wf(),
    {
        Fallback {
            sunrise: Time { hour: 6, minute: 30, second: 0 },
            sunset: Time { hour: 18, minute: 30, second: 0 },
        }
    }
}

/// Location settings for resolving sunrise/sunset times automatically.
/// Coordinates are in millionths of a degree, positive north and east.
#[derive(Clone, Copy, Debug)]
pub struct Location {
    pub enabled: bool,
    pub longitude: Option<i64>,
    pub latitude: Option<i64>,
}

impl Default for Location {
    /// The compiled-in location settings: lookup enabled, coordinates
    /// unset (to be auto-detected).
    fn default() -> (r: Location)
        ensures
            r.enabled,
            r.longitude is None,
            r.latitude is None,
    {
        Location { enabled: true, longitude: None, latitude: None }
    }
}

/// Everything a run reads from the settings source.
#[derive(Clone, Copy, Debug)]
pub struct Configuration {
    pub fallback: Fallback,
    pub location: Location,
}

impl Configuration {
    /// Whether the configuration's times are real times of day.
    pub open spec fn wf(self) -> bool {
        self.fallback.wf()
    }
}

impl Default for Configuration {
    /// The configuration used when no settings source exists.
    fn default() -> (r: Configuration)
        ensures
            r.fallback.sunrise == (Time { hour: 6, minute: 30, second: 0 }),
            r.fallback.sunset == (Time { hour: 18, minute: 30, second: 0 }),
            r.location.enabled,
            r.location.longitude is None,
            r.location.latitude is None,
            r.wf(),
    {
        Configuration { fallback: Fallback::default(), location: Location::default() }
    }
}

} // verus!
