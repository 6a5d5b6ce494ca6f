use userdu::config::{Config, UsageError};
use userdu::format::{SizeFormatter, SizeMode};

#[test]
fn no_flags_defaults_to_bytes() {
    let c = Config::build(".".to_string(), false, false, false, false, false, false).unwrap();
    assert_eq!(c.mode, SizeMode::Bytes);
    assert!(!c.si);
    assert_eq!(c.root, ".");
}

#[test]
fn single_flags_select_their_mode() {
    let build = |b, k, m, g, h| Config::build("/".to_string(), b, k, m, g, h, false).unwrap();
    assert_eq!(build(true, false, false, false, false).mode, SizeMode::Bytes);
    assert_eq!(build(false, true, false, false, false).mode, SizeMode::Kilobytes);
    assert_eq!(build(false, false, true, false, false).mode, SizeMode::Megabytes);
    assert_eq!(build(false, false, false, true, false).mode, SizeMode::Gigabytes);
    assert_eq!(build(false, false, false, false, true).mode, SizeMode::Human);
}

#[test]
fn two_mode_flags_are_rejected() {
    let r = Config::build(".".to_string(), false, true, true, false, false, false);
    assert_eq!(r.unwrap_err(), UsageError::ConflictingModes);
    let r = Config::build(".".to_string(), true, false, false, false, true, false);
    assert_eq!(r.unwrap_err(), UsageError::ConflictingModes);
    let r = Config::build(".".to_string(), true, true, true, true, true, true);
    assert_eq!(r.unwrap_err(), UsageError::ConflictingModes);
}

#[test]
fn si_is_independent_of_the_mode() {
    let c = Config::build(".".to_string(), false, true, false, false, false, true).unwrap();
    assert_eq!(c.mode, SizeMode::Kilobytes);
    assert!(c.si);
    let c = Config::build(".".to_string(), false, false, false, false, false, true).unwrap();
    assert_eq!(c.mode, SizeMode::Bytes);
    assert!(c.si);
}

#[test]
fn mode_precedence_is_g_m_k_human_bytes() {
    assert_eq!(SizeMode::from_flags(true, true, true, true), SizeMode::Gigabytes);
    assert_eq!(SizeMode::from_flags(true, true, false, true), SizeMode::Megabytes);
    assert_eq!(SizeMode::from_flags(true, false, false, true), SizeMode::Kilobytes);
    assert_eq!(SizeMode::from_flags(false, false, false, true), SizeMode::Human);
    assert_eq!(SizeMode::from_flags(false, false, false, false), SizeMode::Bytes);
}

#[test]
fn formatter_from_flags_carries_mode_and_si() {
    let f = SizeFormatter::from_flags(false, false, true, false, true);
    assert_eq!(f.mode, SizeMode::Gigabytes);
    assert!(f.si);
}

#[test]
fn usage_error_has_a_message() {
    assert_eq!(
        UsageError::ConflictingModes.message(),
        "the size-mode flags cannot be combined"
    );
}
