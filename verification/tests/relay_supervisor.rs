use xs_notify::config::NotifierConfig;
use xs_notify::event::{DisplayDirective, NotificationEvent};
use xs_notify::queue::RelayQueue;
use xs_notify::supervisor::{LoopState, Supervisor};

fn event(app: &str, title: &str) -> NotificationEvent {
    NotificationEvent {
        source_app: String::from(app),
        title: String::from(title),
        body: String::from("body"),
        received_at: 0,
    }
}

fn directive(title: &str) -> DisplayDirective {
    DisplayDirective {
        title: String::from(title),
        body: String::from("body"),
        timeout: 5,
        target_host: String::from("localhost"),
        target_port: 42069,
    }
}

#[test]
fn queue_hands_directives_out_in_submission_order() {
    let mut q = RelayQueue::new();
    assert_eq!(q.len(), 0);
    q.push(directive("one"));
    q.push(directive("two"));
    q.push(directive("three"));
    assert_eq!(q.len(), 3);
    assert_eq!(q.pop().unwrap().title, String::from("one"));
    assert_eq!(q.pop().unwrap().title, String::from("two"));
    assert_eq!(q.pop().unwrap().title, String::from("three"));
    assert!(q.pop().is_none());
}

#[test]
fn sink_outage_loses_nothing_and_keeps_order() {
    let mut config = NotifierConfig::default();
    config.skipped_apps = vec![String::from("VRCX")];
    let mut sup = Supervisor::new(config);

    // The sink fails repeatedly while the source keeps producing.
    for n in 0..3 {
        sup.sink_failed();
        assert!(matches!(sup.sink, LoopState::Restarting));
        let queued = sup.handle_source_event(event("Discord", &format!("msg{}", n)));
        assert!(queued);
        // A skipped event still produces nothing during the outage.
        assert!(!sup.handle_source_event(event("VRCX", "dropped")));
    }
    assert_eq!(sup.queue.len(), 3);

    // Once the sink recovers, everything queued during the outage is
    // delivered in original submission order.
    sup.sink_restarted();
    assert!(matches!(sup.sink, LoopState::Running));
    assert_eq!(sup.next_directive().unwrap().title, String::from("msg0"));
    assert_eq!(sup.next_directive().unwrap().title, String::from("msg1"));
    assert_eq!(sup.next_directive().unwrap().title, String::from("msg2"));
    assert!(sup.next_directive().is_none());
}

#[test]
fn loop_failures_never_touch_the_other_loop() {
    let mut sup = Supervisor::new(NotifierConfig::default());
    assert!(matches!(sup.source, LoopState::Running));
    assert!(matches!(sup.sink, LoopState::Running));
    sup.source_failed();
    assert!(matches!(sup.source, LoopState::Restarting));
    assert!(matches!(sup.sink, LoopState::Running));
    sup.source_restarted();
    sup.sink_failed();
    assert!(matches!(sup.source, LoopState::Running));
    assert!(matches!(sup.sink, LoopState::Restarting));
}

#[test]
fn a_fresh_supervisor_has_an_empty_queue() {
    let mut sup = Supervisor::new(NotifierConfig::default());
    assert_eq!(sup.queue.len(), 0);
    assert!(sup.next_directive().is_none());
}

#[test]
fn source_restarts_do_not_disturb_the_queue() {
    let mut sup = Supervisor::new(NotifierConfig::default());
    sup.handle_source_event(event("Discord", "kept"));
    sup.source_failed();
    sup.source_restarted();
    assert_eq!(sup.queue.len(), 1);
    assert_eq!(sup.next_directive().unwrap().title, String::from("kept"));
}

#[test]
fn queued_directives_carry_the_computed_timeout() {
    let mut config = NotifierConfig::default();
    config.dynamic_timeout = false;
    config.default_timeout = 9;
    let mut sup = Supervisor::new(config);
    sup.handle_source_event(event("Discord", "Hi"));
    let d = sup.next_directive().unwrap();
    assert_eq!(d.timeout, 9);
    assert_eq!(d.target_host, String::from("localhost"));
    assert_eq!(d.target_port, 42069);
}
