//! Decides whether a desktop should be in light or dark appearance mode.
//!
//! The decision engine compares the current time of day against a pair of
//! sunrise/sunset times obtained from a layered source of truth: explicit
//! configuration, a per-day cache, a remote lookup, or a static fallback.
//! A suppression marker can pause automatic switching, either indefinitely
//! or through the end of a given calendar date.
//!
//! All persistent state lives in files and all lookups go over the network;
//! this crate never touches either. It models their contents as plain
//! values (strings handed in, strings handed back) so that every decision
//! the system makes is a verified function. The surrounding program is a
//! thin loop: it performs the one outside action the engine asks for and
//! answers with what came back.
//!
//! - [`suppression`]: whether automatic switching is paused.
//! - [`config`]: the settings a run works from, with compiled-in defaults.
//! - [`geolocation`]: coordinates, their cache text, and the lookup tiers.
//! - [`daylight`]: sunrise/sunset pairs, their per-date cache text, and
//!   the lookup that fills it.
//! - [`engine`]: the decision engine that drives one run to its verdict.
//! - [`commands`], [`theme`], [`cli`]: the command surface.
//! - [`date`], [`time`], [`text`]: calendar dates, times of day, and the
//!   byte-level text forms everything above is stated in.
//! - [`json`]: the trusted window onto the JSON bodies remote services
//!   answer with.

pub mod cli;
pub mod commands;
pub mod config;
pub mod date;
pub mod daylight;
pub mod engine;
pub mod geolocation;
pub mod json;
pub mod text;
pub mod suppression;
pub mod theme;
pub mod time;
