use knight::commands::Command;
use knight::commands::handle_command;
use knight::config::Configuration;
use knight::config::Fallback;
use knight::config::Location;
use knight::date::Date;
use knight::theme::Args;
use knight::theme::Theme;
use knight::time::Time;

fn today() -> Date {
    Date { year: 2026, month: 10, day: 11 }
}

#[test]
fn enable_removes_the_marker_and_nothing_else() {
    let plan = handle_command(&Command::Enable, &today());
    assert!(plan.marker_write.is_none());
    assert!(plan.marker_remove);
    assert!(plan.apply_theme.is_none());
    assert!(!plan.run_engine);
}

#[test]
fn disable_writes_an_empty_marker() {
    let plan = handle_command(&Command::Disable, &today());
    assert_eq!(plan.marker_write.as_deref(), Some(""));
    assert!(!plan.marker_remove);
    assert!(plan.apply_theme.is_none());
    assert!(!plan.run_engine);
}

#[test]
fn set_writes_todays_date_and_applies_the_theme() {
    let plan = handle_command(&Command::SetTheme(Args { theme: Theme::Dark }), &today());
    assert_eq!(plan.marker_write.as_deref(), Some("2026-10-11"));
    assert!(!plan.marker_remove);
    assert_eq!(plan.apply_theme, Some(Theme::Dark));
    assert!(!plan.run_engine);
}

#[test]
fn run_only_runs_the_engine() {
    let plan = handle_command(&Command::Run, &today());
    assert!(plan.marker_write.is_none());
    assert!(!plan.marker_remove);
    assert!(plan.apply_theme.is_none());
    assert!(plan.run_engine);
}

#[test]
fn compiled_in_defaults_match_the_documented_values() {
    let config = Configuration::default();
    assert_eq!(config.fallback.sunrise, Time { hour: 6, minute: 30, second: 0 });
    assert_eq!(config.fallback.sunset, Time { hour: 18, minute: 30, second: 0 });
    assert!(config.location.enabled);
    assert!(config.location.latitude.is_none());
    assert!(config.location.longitude.is_none());
    let fallback = Fallback::default();
    assert_eq!(fallback.sunrise, Time { hour: 6, minute: 30, second: 0 });
    let location = Location::default();
    assert!(location.enabled);
}

#[test]
fn an_invocation_carries_its_command() {
    let args = knight::cli::Args { command: Command::Run };
    assert_eq!(args.command, Command::Run);
}
