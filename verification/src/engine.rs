//! The decision engine: drives one run from the suppression check through
//! configuration, the daylight tiers and the final light/dark verdict.
//!
//! The engine itself never touches a file or the network. It is a state
//! machine: each step names the one outside action it needs (read a file,
//! perform a lookup, write a cache entry), and the surrounding program
//! answers with what came back. Every decision between two steps is
//! verified; the surrounding program is a loop that performs actions.

use vstd::prelude::*;

use crate::commands::Error;
use crate::config::Configuration;
use crate::config::Fallback;
use crate::config::Location;
use crate::date::Date;
use crate::daylight::Daylight;
use crate::daylight::accept_daylight_lookup;
use crate::daylight::daylight_of_text;
use crate::daylight::daylight_text;
use crate::daylight::is_daylight_text;
use crate::daylight::parse_cached_times;
use crate::daylight::spec_daylight_acceptance;
use crate::geolocation::Geolocation;
use crate::geolocation::accept_geolocation_lookup;
use crate::geolocation::geo_of_text;
use crate::geolocation::geo_text;
use crate::geolocation::is_geo_text;
use crate::geolocation::parse_cached_geolocation;
use crate::geolocation::spec_geolocation_acceptance;
use crate::suppression::is_suppressed;
use crate::suppression::spec_remove_marker;
use crate::suppression::spec_suppressed;
use crate::text::bytes_of;
use crate::time::Time;

verus! {

/// The outcome of one run: change to light, change to dark, or — when
/// switching is suppressed — change nothing at all.
#[derive(Debug, Copy, Clone, PartialEq, Eq, Structural)]
pub enum Verdict {
    Suppressed,
    Light,
    Dark,
}

/// The verdict a time of day earns against a daylight pair: light from
/// sunrise (inclusive) to sunset (exclusive), dark otherwise.
pub open spec fn spec_verdict(now: Time, d: Daylight) -> Verdict {
    if d.sunrise.spec_seconds() <= now.spec_seconds() && now.spec_seconds()
        < d.sunset.spec_seconds() {
        Verdict::Light
    } else {
        Verdict::Dark
    }
}

/// The daylight pair the configuration falls back to.
pub open spec fn spec_fallback_daylight(c: Configuration) -> Daylight {
    Daylight { sunrise: c.fallback.sunrise, sunset: c.fallback.sunset }
}

/// Compares the current time of day against a daylight pair. Light holds
/// exactly on `sunrise <= now < sunset`: sunrise-inclusive,
/// sunset-exclusive.
pub fn verdict_for(now: &Time, daylight: &Daylight) -> (r: Verdict)
    ensures
        r == spec_verdict(*now, *daylight),
        (r == Verdict::Light) <==> (daylight.sunrise.spec_seconds() <= now.spec_seconds()
            && now.spec_seconds() < daylight.sunset.spec_seconds()),
        r == Verdict::Light || r == Verdict::Dark,
{
    let n: u32 = now.seconds();
    if daylight.sunrise.seconds() <= n && n < daylight.sunset.seconds() {
        Verdict::Light
    } else {
        Verdict::Dark
    }
}

/// The one outside action the engine needs next, or the end of the run.
pub enum Step {
    /// Read the suppression marker; answer with its content.
    ReadMarker,
    /// Remove the stale or corrupt suppression marker; answer with an
    /// acknowledgement.
    RemoveMarker,
    /// Read and parse the settings source; answer with the configuration.
    ReadSettings,
    /// Read the daylight cache entry for the date; answer with its
    /// content.
    ReadDaylightCache(Date),
    /// Read the location cache; answer with its content.
    ReadGeolocationCache,
    /// Perform the remote geolocation lookup; answer with the body.
    FetchGeolocation,
    /// Write this content to the location cache; answer with an
    /// acknowledgement.
    WriteGeolocationCache(String),
    /// Perform the remote daylight lookup for the point and date; answer
    /// with the body.
    FetchDaylight(Geolocation, Date),
    /// Write this content to the daylight cache entry for the date;
    /// answer with an acknowledgement.
    WriteDaylightCache(Date, String),
    /// The run is decided.
    Done(Verdict),
    /// The run failed and the error is fatal.
    Failed(Error),
}

/// What the surrounding program answers a step with.
pub enum Event {
    /// The content of a file (`None` when it does not exist) or the body
    /// of a response (`None` when the request failed).
    Text(Option<String>),
    /// The parsed settings, `None` when the source does not exist. A
    /// malformed source is fatal and never becomes an answer.
    Settings(Option<Configuration>),
    /// The acknowledgement of a removal or write.
    Ack,
}

/// The bytes carried by a textual answer.
pub open spec fn spec_event_bytes(event: Event) -> Option<Seq<u8>> {
    match event {
        Event::Text(Some(s)) => Some(bytes_of(s@)),
        _ => None,
    }
}

/// The characters carried by a textual answer.
pub open spec fn spec_event_chars(event: Event) -> Option<Seq<char>> {
    match event {
        Event::Text(Some(s)) => Some(s@),
        _ => None,
    }
}

/// One run of the decision engine.
pub struct Engine {
    pub now: Time,
    pub today: Date,
    pub config: Configuration,
    pub geolocation: Option<Geolocation>,
    pub daylight: Option<Daylight>,
    pub step: Step,
}

impl Engine {
    /// What every reachable engine state satisfies.
    pub open spec fn wf(self) -> bool {
        &&& self.now.valid()
        &&& self.today.valid()
        &&& self.config.wf()
        &&& match self.step {
            Step::WriteGeolocationCache(_) => self.geolocation is Some,
            Step::WriteDaylightCache(_, _) => self.daylight is Some
                && self.daylight->Some_0.wf(),
            _ => true,
        }
    }

    /// Which answers the current step takes.
    pub open spec fn expects(self, event: Event) -> bool {
        match self.step {
            Step::ReadMarker => event is Text,
            Step::RemoveMarker => event is Ack,
            Step::ReadSettings => match event {
                Event::Settings(Some(c)) => c.wf(),
                Event::Settings(None) => true,
                _ => false,
            },
            Step::ReadDaylightCache(_) => event is Text,
            Step::ReadGeolocationCache => event is Text,
            Step::FetchGeolocation => event is Text,
            Step::WriteGeolocationCache(_) => event is Ack,
            Step::FetchDaylight(_, _) => event is Text,
            Step::WriteDaylightCache(_, _) => event is Ack,
            Step::Done(_) => false,
            Step::Failed(_) => false,
        }
    }

    /// The engine's transition relation: what each step decides from the
    /// answer it was given. Where the answer passes through an opaque JSON
    /// body, the relation states what holds of every outcome.
    pub open spec fn spec_transition(pre: Engine, event: Event, post: Engine) -> bool {
        &&& post.now == pre.now
        &&& post.today == pre.today
        &&& match pre.step {
            // The suppression check, self-healing on a stale or corrupt
            // marker.
            Step::ReadMarker => {
                let marker = spec_event_bytes(event);
                &&& post.config == pre.config
                &&& post.geolocation == pre.geolocation
                &&& post.daylight == pre.daylight
                &&& if spec_suppressed(marker, pre.today) {
                    post.step == Step::Done(Verdict::Suppressed)
                } else if spec_remove_marker(marker, pre.today) {
                    post.step == Step::RemoveMarker
                } else {
                    post.step == Step::ReadSettings
                }
            },
            Step::RemoveMarker => {
                &&& post.config == pre.config
                &&& post.geolocation == pre.geolocation
                &&& post.daylight == pre.daylight
                &&& post.step == Step::ReadSettings
            },
            // Configuration resolution: an absent source takes the
            // compiled-in defaults; with lookup disabled the fallback pair
            // decides at once, and no cache or network step follows.
            Step::ReadSettings => {
                &&& post.config == match event {
                    Event::Settings(Some(c)) => c,
                    _ => spec_default_configuration(),
                }
                &&& post.geolocation == pre.geolocation
                &&& post.daylight == pre.daylight
                &&& if post.config.location.enabled {
                    post.step == Step::ReadDaylightCache(pre.today)
                } else {
                    post.step == Step::Done(
                        spec_verdict(pre.now, spec_fallback_daylight(post.config)),
                    )
                }
            },
            // The per-date cache tier, then the explicit coordinates.
            Step::ReadDaylightCache(_) => {
                let entry = spec_event_bytes(event);
                &&& post.config == pre.config
                &&& if entry is Some && is_daylight_text(entry->Some_0) {
                    let d = daylight_of_text(entry->Some_0);
                    &&& post.daylight == Some(d)
                    &&& post.geolocation == pre.geolocation
                    &&& post.step == Step::Done(spec_verdict(pre.now, d))
                } else {
                    &&& post.daylight == pre.daylight
                    &&& match (pre.config.location.latitude, pre.config.location.longitude) {
                        (Some(lat), Some(lng)) => {
                            let g = Geolocation { latitude: lat, longitude: lng };
                            &&& post.geolocation == Some(g)
                            &&& post.step == Step::FetchDaylight(g, pre.today)
                        },
                        (None, None) => {
                            &&& post.geolocation == pre.geolocation
                            &&& post.step == Step::ReadGeolocationCache
                        },
                        _ => {
                            &&& post.geolocation == pre.geolocation
                            &&& post.step == Step::Failed(Error::InvalidConfig)
                        },
                    }
                }
            },
            // The location cache tier.
            Step::ReadGeolocationCache => {
                let entry = spec_event_bytes(event);
                &&& post.config == pre.config
                &&& post.daylight == pre.daylight
                &&& if entry is Some && is_geo_text(entry->Some_0) {
                    let g = geo_of_text(entry->Some_0);
                    &&& post.geolocation == Some(g)
                    &&& post.step == Step::FetchDaylight(g, pre.today)
                } else {
                    &&& post.geolocation == pre.geolocation
                    &&& post.step == Step::FetchGeolocation
                }
            },
            // The remote geolocation lookup. A point read from the body
            // is on the globe and is cached as exactly its text form; a
            // failed request or a body that falls short — including no
            // body at all — falls back to the configured times.
            Step::FetchGeolocation => {
                &&& post.config == pre.config
                &&& post.daylight == pre.daylight
                &&& match spec_geolocation_acceptance(spec_event_chars(event)) {
                    Some(g) => {
                        &&& post.geolocation == Some(g)
                        &&& match post.step {
                            Step::WriteGeolocationCache(text) => bytes_of(text@) == geo_text(g),
                            _ => false,
                        }
                    },
                    None => {
                        &&& post.geolocation == pre.geolocation
                        &&& post.step == Step::Done(
                            spec_verdict(pre.now, spec_fallback_daylight(pre.config)),
                        )
                    },
                }
            },
            Step::WriteGeolocationCache(_) => {
                &&& post.config == pre.config
                &&& post.geolocation == pre.geolocation
                &&& post.daylight == pre.daylight
                &&& post.step == Step::FetchDaylight(pre.geolocation->Some_0, pre.today)
            },
            // The remote daylight lookup. A pair read from the body is
            // cached under today as exactly its text form — and only when
            // any date the response names is today — while a failed
            // request or a body that falls short falls back to the
            // configured times.
            Step::FetchDaylight(_, _) => {
                &&& post.config == pre.config
                &&& post.geolocation == pre.geolocation
                &&& match spec_daylight_acceptance(spec_event_chars(event), pre.today) {
                    Some(d) => {
                        &&& post.daylight == Some(d)
                        &&& match post.step {
                            Step::WriteDaylightCache(date, text) => date == pre.today
                                && bytes_of(text@) == daylight_text(d),
                            _ => false,
                        }
                    },
                    None => {
                        &&& post.daylight == pre.daylight
                        &&& post.step == Step::Done(
                            spec_verdict(pre.now, spec_fallback_daylight(pre.config)),
                        )
                    },
                }
            },
            Step::WriteDaylightCache(_, _) => {
                &&& post.config == pre.config
                &&& post.geolocation == pre.geolocation
                &&& post.daylight == pre.daylight
                &&& post.step == Step::Done(spec_verdict(pre.now, pre.daylight->Some_0))
            },
            Step::Done(_) => false,
            Step::Failed(_) => false,
        }
    }

    /// Begins a run at the suppression check.
    pub fn start(now: Time, today: Date) -> (e: Engine)
        requires
            now.valid(),
            today.valid(),
        ensures
            e.wf(),
            e.now == now,
            e.today == today,
            e.step == Step::ReadMarker,
            e.geolocation is None,
            e.daylight is None,
    {
        Engine {
            now,
            today,
            config: Configuration::default(),
            geolocation: None,
            daylight: None,
            step: Step::ReadMarker,
        }
    }

    /// Takes the answer to the current step and decides the next one.
    #[verifier::rlimit(100)]
    pub fn advance(self, event: Event) -> (next: Engine)
        requires
            self.wf(),
            self.expects(event),
        ensures
            next.wf(),
            Engine::spec_transition(self, event, next),
    {
        match self.step {
            Step::ReadMarker => {
                let marker: Option<String> = take_text(event);
                let outcome = match &marker {
                    Some(content) => is_suppressed(Some(content.as_str()), &self.today),
                    None => is_suppressed(None, &self.today),
                };
                if outcome.suppressed {
                    Engine { step: Step::Done(Verdict::Suppressed), ..self }
                } else if outcome.remove_marker {
                    Engine { step: Step::RemoveMarker, ..self }
                } else {
                    Engine { step: Step::ReadSettings, ..self }
                }
            },
            Step::RemoveMarker => Engine { step: Step::ReadSettings, ..self },
            Step::ReadSettings => {
                let config: Configuration = match event {
                    Event::Settings(Some(c)) => c,
                    _ => Configuration::default(),
                };
                if config.location.enabled {
                    Engine { config, step: Step::ReadDaylightCache(self.today), ..self }
                } else {
                    let pair = Daylight {
                        sunrise: config.fallback.sunrise,
                        sunset: config.fallback.sunset,
                    };
                    let verdict = verdict_for(&self.now, &pair);
                    Engine { config, step: Step::Done(verdict), ..self }
                }
            },
            Step::ReadDaylightCache(_) => {
                let entry: Option<String> = take_text(event);
                let cached: Option<Daylight> = match &entry {
                    Some(content) => parse_cached_times(content.as_str()),
                    None => None,
                };
                match cached {
                    Some(d) => {
                        let verdict = verdict_for(&self.now, &d);
                        Engine { daylight: Some(d), step: Step::Done(verdict), ..self }
                    },
                    None => {
                        match (self.config.location.latitude, self.config.location.longitude) {
                            (Some(lat), Some(lng)) => {
                                let g = Geolocation { latitude: lat, longitude: lng };
                                Engine {
                                    geolocation: Some(g),
                                    step: Step::FetchDaylight(g, self.today),
                                    ..self
                                }
                            },
                            (None, None) => Engine { step: Step::ReadGeolocationCache, ..self },
                            _ => Engine { step: Step::Failed(Error::InvalidConfig), ..self },
                        }
                    },
                }
            },
            Step::ReadGeolocationCache => {
                let entry: Option<String> = take_text(event);
                let cached: Option<Geolocation> = match &entry {
                    Some(content) => parse_cached_geolocation(content.as_str()),
                    None => None,
                };
                match cached {
                    Some(g) => Engine {
                        geolocation: Some(g),
                        step: Step::FetchDaylight(g, self.today),
                        ..self
                    },
                    None => Engine { step: Step::FetchGeolocation, ..self },
                }
            },
            Step::FetchGeolocation => {
                let body: Option<String> = take_text(event);
                let accepted: Option<(Geolocation, String)> = match &body {
                    Some(content) => accept_geolocation_lookup(Some(content.as_str())),
                    None => accept_geolocation_lookup(None),
                };
                match accepted {
                    Some((g, cache)) => Engine {
                        geolocation: Some(g),
                        step: Step::WriteGeolocationCache(cache),
                        ..self
                    },
                    None => {
                        let pair = Daylight {
                            sunrise: self.config.fallback.sunrise,
                            sunset: self.config.fallback.sunset,
                        };
                        let verdict = verdict_for(&self.now, &pair);
                        Engine { step: Step::Done(verdict), ..self }
                    },
                }
            },
            Step::WriteGeolocationCache(_) => {
                let g: Geolocation = match self.geolocation {
                    Some(g) => g,
                    None => vstd::pervasive::unreached(),
                };
                Engine { step: Step::FetchDaylight(g, self.today), ..self }
            },
            Step::FetchDaylight(_, _) => {
                let body: Option<String> = take_text(event);
                let accepted: Option<(Daylight, String)> = match &body {
                    Some(content) => accept_daylight_lookup(Some(content.as_str()), &self.today),
                    None => accept_daylight_lookup(None, &self.today),
                };
                match accepted {
                    Some((d, cache)) => Engine {
                        daylight: Some(d),
                        step: Step::WriteDaylightCache(self.today, cache),
                        ..self
                    },
                    None => {
                        let pair = Daylight {
                            sunrise: self.config.fallback.sunrise,
                            sunset: self.config.fallback.sunset,
                        };
                        let verdict = verdict_for(&self.now, &pair);
                        Engine { step: Step::Done(verdict), ..self }
                    },
                }
            },
            Step::WriteDaylightCache(_, _) => {
                let d: Daylight = match self.daylight {
                    Some(d) => d,
                    None => vstd::pervasive::unreached(),
                };
                let verdict = verdict_for(&self.now, &d);
                Engine { step: Step::Done(verdict), ..self }
            },
            Step::Done(_) => vstd::pervasive::unreached(),
            Step::Failed(_) => vstd::pervasive::unreached(),
        }
    }
}

/// The compiled-in configuration, as a specification value.
pub open spec fn spec_default_configuration() -> Configuration {
    Configuration {
        fallback: Fallback {
            sunrise: Time { hour: 6, minute: 30, second: 0 },
            sunset: Time { hour: 18, minute: 30, second: 0 },
        },
        location: Location { enabled: true, longitude: None, latitude: None },
    }
}

/// Unwraps a textual answer.
fn take_text(event: Event) -> (r: Option<String>)
    requires
        event is Text,
    ensures
        spec_event_bytes(event) == match r {
            Some(s) => Some(bytes_of(s@)),
            None => None::<Seq<u8>>,
        },
        spec_event_chars(event) == match r {
            Some(s) => Some(s@),
            None => None::<Seq<char>>,
        },
{
    match event {
        Event::Text(t) => t,
        _ => vstd::pervasive::unreached(),
    }
}

/// With location-based lookup disabled, the settings answer decides the
/// run at once: the verdict comes from the fallback pair alone, and the
/// engine reaches no cache read, no cache write and no network step.
pub proof fn lemma_disabled_uses_fallback(pre: Engine, event: Event, post: Engine)
    requires
        pre.step is ReadSettings,
        Engine::spec_transition(pre, event, post),
        !post.config.location.enabled,
    ensures
        post.step == Step::Done(spec_verdict(pre.now, spec_fallback_daylight(post.config))),
{
}

/// With both coordinates set in the settings, a daylight-cache miss moves
/// straight to the daylight lookup with exactly those coordinates: the
/// location cache and the geolocation lookup play no part in the result.
pub proof fn lemma_explicit_coordinates_verbatim(pre: Engine, event: Event, post: Engine)
    requires
        pre.step is ReadDaylightCache,
        Engine::spec_transition(pre, event, post),
        !(spec_event_bytes(event) is Some && is_daylight_text(spec_event_bytes(event)->Some_0)),
        pre.config.location.latitude is Some,
        pre.config.location.longitude is Some,
    ensures
        post.step == Step::FetchDaylight(
            Geolocation {
                latitude: pre.config.location.latitude->Some_0,
                longitude: pre.config.location.longitude->Some_0,
            },
            pre.today,
        ),
{
}

/// With exactly one coordinate set in the settings, a daylight-cache miss
/// is a fatal configuration contradiction.
pub proof fn lemma_one_coordinate_is_invalid(pre: Engine, event: Event, post: Engine)
    requires
        pre.step is ReadDaylightCache,
        Engine::spec_transition(pre, event, post),
        !(spec_event_bytes(event) is Some && is_daylight_text(spec_event_bytes(event)->Some_0)),
        (pre.config.location.latitude is Some) != (pre.config.location.longitude is Some),
    ensures
        post.step == Step::Failed(Error::InvalidConfig),
{
}

/// Whether every cache step the engine names is keyed by the run's own
/// date.
pub open spec fn spec_steps_name_today(e: Engine) -> bool {
    match e.step {
        Step::ReadDaylightCache(date) => date == e.today,
        Step::FetchDaylight(_, date) => date == e.today,
        Step::WriteDaylightCache(date, _) => date == e.today,
        _ => true,
    }
}

/// A daylight cache entry is only ever read or written under the date the
/// run is deciding for: the engine starts there and every transition keeps
/// it, so an entry for one date is never served or stored for another.
pub proof fn lemma_cache_keyed_by_today(pre: Engine, event: Event, post: Engine)
    requires
        Engine::spec_transition(pre, event, post),
    ensures
        spec_steps_name_today(post),
{
}

/// A failed or unreadable geolocation lookup — no response at all, a body
/// that is not JSON, or one without in-range coordinates — ends the run
/// at once with the verdict the configured fallback times give, and
/// nothing is cached.
pub proof fn lemma_failed_geolocation_lookup_falls_back(pre: Engine, event: Event, post: Engine)
    requires
        pre.step is FetchGeolocation,
        Engine::spec_transition(pre, event, post),
        spec_geolocation_acceptance(spec_event_chars(event)) is None,
    ensures
        post.step == Step::Done(spec_verdict(pre.now, spec_fallback_daylight(pre.config))),
        post.geolocation == pre.geolocation,
{
}

/// A failed or unreadable daylight lookup — no response at all, a body
/// that is not JSON or without `HH:MM:SS` times, or one whose `date`
/// member names another day — ends the run at once with the verdict the
/// configured fallback times give, and nothing is cached.
pub proof fn lemma_failed_daylight_lookup_falls_back(pre: Engine, event: Event, post: Engine)
    requires
        pre.step is FetchDaylight,
        Engine::spec_transition(pre, event, post),
        spec_daylight_acceptance(spec_event_chars(event), pre.today) is None,
    ensures
        post.step == Step::Done(spec_verdict(pre.now, spec_fallback_daylight(pre.config))),
        post.daylight == pre.daylight,
{
}

} // verus!
