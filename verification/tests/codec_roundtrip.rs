use xs_notify::codec::{decode_config, encode_config};
use xs_notify::config::{NotificationStrategy, NotifierConfig};

fn assert_same(a: &NotifierConfig, b: &NotifierConfig) {
    assert_eq!(a.port, b.port);
    assert_eq!(a.host, b.host);
    assert!(matches!(
        (a.notification_strategy, b.notification_strategy),
        (NotificationStrategy::Listener, NotificationStrategy::Listener)
            | (NotificationStrategy::Polling, NotificationStrategy::Polling)
    ));
    assert_eq!(a.polling_rate, b.polling_rate);
    assert_eq!(a.dynamic_timeout, b.dynamic_timeout);
    assert_eq!(a.default_timeout, b.default_timeout);
    assert_eq!(a.reading_speed, b.reading_speed);
    assert_eq!(a.min_timeout, b.min_timeout);
    assert_eq!(a.max_timeout, b.max_timeout);
    assert_eq!(a.skipped_apps, b.skipped_apps);
}

#[test]
fn default_config_round_trips() {
    let c = NotifierConfig::default();
    let text = encode_config(&c);
    let back = decode_config(text.as_str()).expect("an encoding decodes");
    assert_same(&c, &back);
}

#[test]
fn full_config_round_trips() {
    let c = NotifierConfig {
        port: 9100,
        host: String::from("overlay.example"),
        notification_strategy: NotificationStrategy::Polling,
        polling_rate: 50,
        dynamic_timeout: false,
        default_timeout: 7,
        reading_speed: 400,
        min_timeout: 1,
        max_timeout: 180,
        skipped_apps: vec![String::from("VRCX"), String::from("Discord"), String::new()],
    };
    let text = encode_config(&c);
    let back = decode_config(text.as_str()).expect("an encoding decodes");
    assert_same(&c, &back);
}

#[test]
fn unusual_strings_round_trip() {
    let c = NotifierConfig {
        host: String::from("h\u{00e9}llo \"quoted\"\nnewline"),
        skipped_apps: vec![String::from("\u{1f514} bell"), String::from("a b c")],
        ..NotifierConfig::default()
    };
    let text = encode_config(&c);
    let back = decode_config(text.as_str()).expect("an encoding decodes");
    assert_same(&c, &back);
}

#[test]
fn garbage_does_not_decode() {
    assert!(decode_config("").is_none());
    assert!(decode_config("not a config").is_none());
}

#[test]
fn truncated_encodings_do_not_decode() {
    let c = NotifierConfig::default();
    let text = encode_config(&c);
    let cut: String = text.chars().take(text.chars().count() - 1).collect();
    assert!(decode_config(cut.as_str()).is_none());
}

#[test]
fn trailing_garbage_does_not_decode() {
    let c = NotifierConfig::default();
    let mut text = encode_config(&c);
    text.push('x');
    assert!(decode_config(text.as_str()).is_none());
}
