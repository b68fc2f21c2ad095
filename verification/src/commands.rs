//! The command surface: what a run has been asked to do, what can go
//! wrong, and the plan of externally visible effects each command asks
//! for.

use vstd::prelude::*;

use crate::date::Date;
use crate::date::date_text;
use crate::date::format_date;
use crate::text::bytes_of;
use crate::theme::Args;
use crate::theme::Theme;

verus! {

/// What a run of the program has been asked to do.
#[derive(Debug, Copy, Clone, PartialEq, Eq, Structural)]
pub enum Command {
    /// If disabled, re-enable automatic theme switching.
    Enable,
    /// Pause automatic theme switching indefinitely.
    Disable,
    /// Manually set the theme for today.
    SetTheme(Args),
    /// Switch the system to the appropriate theme.
    Run,
}

/// Why a run failed.
#[derive(Debug, Clone)]
pub enum Error {
    /// A file could not be read, written or removed.
    Io(String),
    /// The settings source was present but malformed.
    FailedToDeserialize(String),
    /// Exactly one of latitude and longitude was set: a contradiction
    /// that cannot be resolved.
    InvalidConfig,
    /// The theme-setting call failed.
    ExternalCommand(String),
}

/// The externally visible effects a command asks the surrounding program
/// to carry out: a write to the suppression marker, a removal of it, a
/// theme applied at once, or a run of the decision engine.
pub struct CommandPlan {
    pub marker_write: Option<String>,
    pub marker_remove: bool,
    pub apply_theme: Option<Theme>,
    pub run_engine: bool,
}

/// Turns a command into its plan of effects.
///
/// - Enable removes the suppression marker.
/// - Disable writes an empty marker: suppressed indefinitely.
/// - Set writes today's date into the marker (suppression through the end
///   of today only, so automatic switching resumes tomorrow) and applies
///   the chosen theme at once.
/// - Run runs the decision engine and touches nothing itself.
pub fn handle_command(command: &Command, today: &Date) -> (plan: CommandPlan)
    requires
        today.valid(),
    ensures
        match *command {
            Command::Enable => plan.marker_write is None && plan.marker_remove
                && plan.apply_theme is None && !plan.run_engine,
            Command::Disable => (match plan.marker_write {
                Some(w) => bytes_of(w@) == Seq::<u8>::empty(),
                None => false,
            }) && !plan.marker_remove && plan.apply_theme is None && !plan.run_engine,
            Command::SetTheme(args) => (match plan.marker_write {
                Some(w) => bytes_of(w@) == date_text(*today),
                None => false,
            }) && !plan.marker_remove && plan.apply_theme == Some(args.theme)
                && !plan.run_engine,
            Command::Run => plan.marker_write is None && !plan.marker_remove
                && plan.apply_theme is None && plan.run_engine,
        },
{
    match command {
        Command::Enable => CommandPlan {
            marker_write: None,
            marker_remove: true,
            apply_theme: None,
            run_engine: false,
        },
        Command::Disable => {
            let empty = String::new();
            proof {
                reveal_with_fuel(vstd::utf8::encode_utf8, 2);
            }
            CommandPlan {
                marker_write: Some(empty),
                marker_remove: false,
                apply_theme: None,
                run_engine: false,
            }
        },
        Command::SetTheme(args) => CommandPlan {
            marker_write: Some(format_date(today)),
            marker_remove: false,
            apply_theme: Some(args.theme),
            run_engine: false,
        },
        Command::Run => CommandPlan {
            marker_write: None,
            marker_remove: false,
            apply_theme: None,
            run_engine: true,
        },
    }
}

} // verus!
