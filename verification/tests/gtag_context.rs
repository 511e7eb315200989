use biyard_kit::gtag::{bootstrap, set_disabled, set_user_id, GtagConfig};
use biyard_kit::gtag_state::GtagState;

#[test]
fn calls_before_load_are_buffered_then_flushed_in_order() {
    let config = GtagConfig::new("G-1");
    let boot = bootstrap(&config);
    let mut s = GtagState::new(config);
    assert!(s.push("a();".to_string()).is_empty());
    assert!(s.push("b();".to_string()).is_empty());
    let out = s.run_effect();
    assert_eq!(out, vec![boot, "a();".to_string(), "b();".to_string()]);
    assert_eq!(s.push("c();".to_string()), vec!["c();".to_string()]);
}

#[test]
fn disabled_context_drops_calls() {
    let mut s = GtagState::new(GtagConfig::new("G-1").enabled(false));
    assert!(!s.is_enabled());
    assert!(s.set_user_id(Some("u")).is_empty());
    assert!(s.run_effect().is_empty());
}

#[test]
fn opting_out_and_in_toggles_the_kill_switch() {
    let mut s = GtagState::new(GtagConfig::new("G-1"));
    s.run_effect();
    assert_eq!(s.set_enabled(false), vec![set_disabled("G-1", true)]);
    assert!(s.set_user_id(Some("u")).is_empty());
    assert_eq!(s.set_enabled(true), vec![set_disabled("G-1", false)]);
    assert_eq!(s.set_user_id(Some("u")), vec![set_user_id(Some("u"))]);
}
