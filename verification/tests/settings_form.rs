use xs_notify::settings::{Message, XSNotify};

#[test]
fn settings_update_tests() {
    let mut xs_notify = XSNotify::default();

    // Test setting the port
    xs_notify.update(Message::SetPort(String::from("2000")));
    assert_eq!(xs_notify.settings.port, 2000);

    // Test setting the host
    xs_notify.update(Message::SetHost(String::from("testing")));
    assert_eq!(xs_notify.settings.host, String::from("testing"));

    // Test setting the polling rate
    xs_notify.update(Message::SetPollingRate(String::from("100")));
    assert_eq!(xs_notify.settings.polling_rate, 100);

    // Test setting dynamic timeout
    xs_notify.update(Message::SetDynamicTimeout(false));
    assert_eq!(xs_notify.settings.dynamic_timeout, false);

    // Test setting default timeout
    xs_notify.update(Message::SetDefaultTimeout(String::from("10")));
    assert_eq!(xs_notify.settings.default_timeout, 10);

    // Test setting reading speed
    xs_notify.update(Message::SetReadingSpeed(String::from("200")));
    assert_eq!(xs_notify.settings.reading_speed, 200);

    // Test setting minimum timeout
    xs_notify.update(Message::SetMinTimeout(String::from("5")));
    assert_eq!(xs_notify.settings.min_timeout, 5);

    // Test setting maximum timeout
    xs_notify.update(Message::SetMaxTimeout(String::from("30")));
    assert_eq!(xs_notify.settings.max_timeout, 30);

    xs_notify.update(Message::SetCurrentApp(String::from("VRCX")));
    xs_notify.update(Message::AddSkippedApp());
    xs_notify.update(Message::SetCurrentApp(String::from("Discord")));
    xs_notify.update(Message::AddSkippedApp());
    xs_notify.update(Message::RemoveSkippedApp(String::from("Discord")));

    assert_eq!(xs_notify.settings.skipped_apps, vec![String::from("VRCX")])
}

#[test]
fn removing_an_absent_app_changes_nothing() {
    let mut form = XSNotify::default();
    form.update(Message::SetCurrentApp(String::from("VRCX")));
    form.update(Message::AddSkippedApp());
    form.update(Message::RemoveSkippedApp(String::from("Discord")));
    assert_eq!(form.settings.skipped_apps, vec![String::from("VRCX")]);
}

#[test]
fn empty_numeric_input_is_rejected() {
    let mut form = XSNotify::default();
    form.update(Message::SetPort(String::from("")));
    assert_eq!(form.settings.port, 42069);
}

#[test]
fn non_numeric_input_is_rejected() {
    let mut form = XSNotify::default();
    form.update(Message::SetDefaultTimeout(String::from("12a")));
    assert_eq!(form.settings.default_timeout, 5);
    form.update(Message::SetDefaultTimeout(String::from("-3")));
    assert_eq!(form.settings.default_timeout, 5);
}

#[test]
fn oversized_numeric_input_is_rejected() {
    let mut form = XSNotify::default();
    form.update(Message::SetPollingRate(String::from("99999999999999999999999999")));
    assert_eq!(form.settings.polling_rate, 250);
}

#[test]
fn submitting_the_entry_field_clears_it() {
    let mut form = XSNotify::default();
    form.update(Message::SetCurrentApp(String::from("Steam")));
    assert_eq!(form.current_skipped_app, String::from("Steam"));
    form.update(Message::AddSkippedApp());
    assert_eq!(form.current_skipped_app, String::new());
    assert_eq!(form.settings.skipped_apps, vec![String::from("Steam")]);
}

#[test]
fn default_settings_match_the_documented_defaults() {
    let form = XSNotify::default();
    assert_eq!(form.settings.port, 42069);
    assert_eq!(form.settings.host, String::from("localhost"));
    assert_eq!(form.settings.polling_rate, 250);
    assert_eq!(form.settings.dynamic_timeout, true);
    assert_eq!(form.settings.default_timeout, 5);
    assert_eq!(form.settings.reading_speed, 238);
    assert_eq!(form.settings.min_timeout, 2);
    assert_eq!(form.settings.max_timeout, 120);
    assert!(form.settings.skipped_apps.is_empty());
}
