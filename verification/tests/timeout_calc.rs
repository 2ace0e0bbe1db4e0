use xs_notify::config::{NotificationStrategy, NotifierConfig};
use xs_notify::event::NotificationEvent;
use xs_notify::timeout::evaluate;

fn config() -> NotifierConfig {
    NotifierConfig::default()
}

fn event(app: &str, title: &str, body: &str) -> NotificationEvent {
    NotificationEvent {
        source_app: String::from(app),
        title: String::from(title),
        body: String::from(body),
        received_at: 0,
    }
}

#[test]
fn scenario_a_unskipped_event_yields_its_directive() {
    let mut c = config();
    c.skipped_apps = vec![String::from("VRCX")];
    let d = evaluate(event("Discord", "Hi", "there"), &c).expect("a directive is owed");
    assert_eq!(d.title, String::from("Hi"));
    assert_eq!(d.body, String::from("there"));
}

#[test]
fn scenario_b_skipped_event_yields_nothing() {
    let mut c = config();
    c.skipped_apps = vec![String::from("VRCX")];
    assert!(evaluate(event("VRCX", "x", "y"), &c).is_none());
}

#[test]
fn scenario_c_static_timeout_ignores_text_length() {
    let mut c = config();
    c.dynamic_timeout = false;
    c.default_timeout = 10;
    let short = evaluate(event("Discord", "", ""), &c).unwrap();
    assert_eq!(short.timeout, 10);
    let long_body = "a".repeat(100000);
    let long = evaluate(event("Discord", "very long", &long_body), &c).unwrap();
    assert_eq!(long.timeout, 10);
}

#[test]
fn dynamic_timeout_stays_between_the_bounds() {
    let c = config();
    let tiny = evaluate(event("Discord", "", ""), &c).unwrap();
    assert_eq!(tiny.timeout, 2);
    let huge_body = "a".repeat(1000000);
    let huge = evaluate(event("Discord", "t", &huge_body), &c).unwrap();
    assert_eq!(huge.timeout, 120);
    let mid_body = "a".repeat(500);
    let mid = evaluate(event("Discord", "", &mid_body), &c).unwrap();
    assert!(mid.timeout >= 2 && mid.timeout <= 120);
}

#[test]
fn dynamic_timeout_formula_on_an_exact_length() {
    // 238 characters at 238 words per minute: 12 * 238 / 238 = 12 seconds.
    let c = config();
    let body = "a".repeat(238);
    let d = evaluate(event("Discord", "", &body), &c).unwrap();
    assert_eq!(d.timeout, 12);
    // 239 characters round up to 13 seconds.
    let body = "a".repeat(239);
    let d = evaluate(event("Discord", "", &body), &c).unwrap();
    assert_eq!(d.timeout, 13);
}

#[test]
fn zero_reading_speed_takes_the_maximum() {
    let mut c = config();
    c.reading_speed = 0;
    let d = evaluate(event("Discord", "Hi", "there"), &c).unwrap();
    assert_eq!(d.timeout, 120);
}

#[test]
fn directive_carries_the_configured_endpoint() {
    let mut c = config();
    c.host = String::from("overlay.local");
    c.port = 9100;
    let d = evaluate(event("Discord", "Hi", "there"), &c).unwrap();
    assert_eq!(d.target_host, String::from("overlay.local"));
    assert_eq!(d.target_port, 9100);
}

#[test]
fn empty_skip_list_filters_nothing() {
    let c = config();
    assert!(evaluate(event("VRCX", "x", "y"), &c).is_some());
    let _ = NotificationStrategy::Polling;
}

#[test]
fn skip_matching_is_exact() {
    let mut c = config();
    c.skipped_apps = vec![String::from("VRCX")];
    assert!(evaluate(event("vrcx", "x", "y"), &c).is_some());
    assert!(evaluate(event("VRCX ", "x", "y"), &c).is_some());
    assert!(evaluate(event("VRCX", "x", "y"), &c).is_none());
}
