use biyard_kit::gtag::{
    bootstrap, consent_update, event, page_view, set_disabled, set_user_id, set_user_property,
    ConsentStatus, ConsentUpdate, GtagConfig,
};
use biyard_kit::json::{JsonObject, JsonScalar};

#[test]
fn bootstrap_contains_config_and_script() {
    let config = GtagConfig::new("G-TEST123").debug(true);
    let js = bootstrap(&config);
    assert!(js.contains(r#"gtag('config', "G-TEST123", {"debug_mode":true,"send_page_view":false});"#));
    assert!(js.contains("googletagmanager.com/gtag/js"));
    assert!(!js.contains("gtag('consent', 'default'"));
}

#[test]
fn bootstrap_declares_default_consent_before_config() {
    let config = GtagConfig::new("G-TEST123").default_consent(ConsentUpdate::deny_all());
    let js = bootstrap(&config);
    let consent_pos = js.find("gtag('consent', 'default'").unwrap();
    let config_pos = js.find("gtag('config'").unwrap();
    assert!(consent_pos < config_pos);
}

#[test]
fn event_escapes_name_and_params() {
    let mut params = JsonObject::new();
    params.insert_str("currency", "KRW");
    params.insert("value".to_string(), JsonScalar::Int(12000));
    params.insert_str("note", "has \"quotes\"");
    let js = event("purchase", &params);
    assert_eq!(
        js,
        r#"gtag('event', "purchase", {"currency":"KRW","note":"has \"quotes\"","value":12000});"#
    );
}

#[test]
fn page_view_with_title() {
    assert_eq!(
        page_view("/ko/main", Some("Main")),
        r#"gtag('event', "page_view", {"page_path":"/ko/main","page_title":"Main"});"#
    );
}

#[test]
fn user_id_can_be_cleared() {
    assert_eq!(set_user_id(Some("user-1")), r#"gtag('set', { 'user_id': "user-1" });"#);
    assert_eq!(set_user_id(None), "gtag('set', { 'user_id': null });");
}

#[test]
fn consent_update_only_includes_set_fields() {
    let update = ConsentUpdate::new().analytics_storage(ConsentStatus::Granted);
    assert_eq!(
        consent_update(&update),
        r#"gtag('consent', 'update', {"analytics_storage":"granted"});"#
    );
}

#[test]
fn disable_flag_uses_measurement_id() {
    assert_eq!(
        set_disabled("G-TEST123", true),
        r#"window['ga-disable-' + "G-TEST123"] = true;"#
    );
}

#[test]
fn page_view_without_title_has_only_path() {
    assert_eq!(
        page_view("/en", None),
        r#"gtag('event', "page_view", {"page_path":"/en"});"#
    );
}

#[test]
fn enable_flag_is_false_when_not_disabled() {
    assert_eq!(
        set_disabled("G-X", false),
        r#"window['ga-disable-' + "G-X"] = false;"#
    );
}

#[test]
fn user_property_value_is_json() {
    assert_eq!(
        set_user_property("plan", &JsonScalar::Str("pro".to_string())),
        r#"gtag('set', 'user_properties', { "plan": "pro" });"#
    );
}

#[test]
fn deny_all_denies_every_signal() {
    assert_eq!(
        consent_update(&ConsentUpdate::deny_all()),
        r#"gtag('consent', 'update', {"ad_personalization":"denied","ad_storage":"denied","ad_user_data":"denied","analytics_storage":"denied"});"#
    );
}

#[test]
fn consent_status_names() {
    assert_eq!(ConsentStatus::Granted.as_str(), "granted");
    assert_eq!(ConsentStatus::Denied.as_str(), "denied");
}

#[test]
fn event_without_params_is_an_empty_object() {
    assert_eq!(event("sign_out", &JsonObject::new()), r#"gtag('event', "sign_out", {});"#);
}

#[test]
fn event_params_keep_the_last_value_of_a_key_and_escape_controls() {
    let mut params = JsonObject::new();
    params.insert_str("b", "first");
    params.insert("a".to_string(), JsonScalar::Int(-7));
    params.insert_str("b", "line\nbreak\t\u{1}\\");
    params.insert_bool("c", false);
    let js = event("e", &params);
    assert_eq!(js, r#"gtag('event', "e", {"a":-7,"b":"line\nbreak\t\u0001\\","c":false});"#);
}

#[test]
fn consent_json_has_exactly_the_set_fields() {
    assert_eq!(consent_update(&ConsentUpdate::new()), "gtag('consent', 'update', {});");
    let u = ConsentUpdate::new().ad_personalization(ConsentStatus::Denied).ad_storage(ConsentStatus::Granted);
    assert_eq!(
        consent_update(&u),
        r#"gtag('consent', 'update', {"ad_personalization":"denied","ad_storage":"granted"});"#
    );
}
