use colored::Colorize;
use linear_cli::priority::priority_to_string;

// Tests that compare colored output force the colored crate's override
// to `true`. Otherwise the call and the test's expected value each consult
// `should_colorize()` independently, and the two answers can differ.

#[test]
fn test_priority_none() {
    colored::control::set_override(true);
    assert_eq!(priority_to_string(None), "-");
}

#[test]
fn test_priority_zero() {
    colored::control::set_override(true);
    assert_eq!(priority_to_string(Some(0)), "-");
}

#[test]
fn test_priority_urgent() {
    colored::control::set_override(true);
    assert_eq!(priority_to_string(Some(1)), "Urgent".red().to_string());
}

#[test]
fn test_priority_high() {
    colored::control::set_override(true);
    assert_eq!(priority_to_string(Some(2)), "High".yellow().to_string());
}

#[test]
fn test_priority_normal() {
    colored::control::set_override(true);
    assert_eq!(priority_to_string(Some(3)), "Normal");
}

#[test]
fn test_priority_low() {
    colored::control::set_override(true);
    assert_eq!(priority_to_string(Some(4)), "Low".dimmed().to_string());
}

#[test]
fn test_priority_invalid() {
    colored::control::set_override(true);
    assert_eq!(priority_to_string(Some(5)), "-");
    assert_eq!(priority_to_string(Some(-1)), "-");
}

#[test]
fn colours_are_escape_sequences_around_the_label() {
    colored::control::set_override(true);
    assert_eq!(priority_to_string(Some(1)), "\u{1b}[31mUrgent\u{1b}[0m");
    assert_eq!(priority_to_string(Some(2)), "\u{1b}[33mHigh\u{1b}[0m");
    assert_eq!(priority_to_string(Some(4)), "\u{1b}[2mLow\u{1b}[0m");
}
