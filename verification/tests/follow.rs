use message_recorder::follow::{report_for, work_for, Event, Follower, Phase, Sample, Work};

fn sample(timestamp: &str, decoded: Option<&str>) -> Sample {
    Sample { timestamp: timestamp.to_string(), decoded: decoded.map(|d| d.to_string()) }
}

fn subscribed() -> Follower {
    let mut follower = Follower::new();
    follower.advance(Event::SessionOpened);
    follower.advance(Event::SubscriberDeclared);
    follower
}

#[test]
fn the_course_from_start_to_end() {
    let mut follower = Follower::new();
    assert_eq!(follower.phase(), Phase::Idle);
    assert_eq!(follower.work(), Work::OpenSession);

    let step = follower.advance(Event::SessionOpened);
    assert_eq!(follower.phase(), Phase::SessionOpen);
    assert_eq!(step.work, Work::DeclareSubscriber);
    assert!(step.report.is_none());

    let step = follower.advance(Event::SubscriberDeclared);
    assert_eq!(follower.phase(), Phase::Subscribed);
    assert_eq!(step.work, Work::Receive);
    assert!(step.report.is_none());

    let step = follower.advance(Event::Received(sample("t1", Some("m1"))));
    assert_eq!(follower.phase(), Phase::Receiving);
    assert_eq!(step.work, Work::Receive);
    let report = step.report.unwrap();
    assert_eq!(report.timestamp, "t1");
    assert_eq!(report.line, "Received data: m1");

    let step = follower.advance(Event::ReceiveFailed);
    assert_eq!(follower.phase(), Phase::Closing);
    assert_eq!(step.work, Work::TearDown);
    assert!(step.report.is_none());

    let step = follower.advance(Event::TornDown);
    assert_eq!(follower.phase(), Phase::Terminated);
    assert_eq!(step.work, Work::Nothing);
    assert!(step.report.is_none());
    assert_eq!(follower.work(), Work::Nothing);
}

#[test]
fn one_line_per_sample_in_the_order_of_delivery() {
    let mut follower = subscribed();
    let deliveries = vec![
        sample("1", Some("a")),
        sample("2", None),
        sample("3", Some("c")),
        sample("4", None),
        sample("5", Some("")),
    ];
    let mut printed: Vec<(String, String)> = Vec::new();
    let mut reports = 0;
    for delivery in deliveries {
        let step = follower.advance(Event::Received(delivery));
        assert_eq!(step.work, Work::Receive);
        assert_eq!(follower.phase(), Phase::Receiving);
        if let Some(report) = step.report {
            reports += 1;
            printed.push((report.timestamp, report.line));
        }
    }
    assert_eq!(reports, 5);
    let expected: Vec<(String, String)> = vec![
        ("1", "Received data: a"),
        ("2", "Failed to decode data"),
        ("3", "Received data: c"),
        ("4", "Failed to decode data"),
        ("5", "Received data: "),
    ]
    .into_iter()
    .map(|(t, l)| (t.to_string(), l.to_string()))
    .collect();
    assert_eq!(printed, expected);
}

#[test]
fn the_teardown_is_due_once_at_the_first_failure() {
    let mut follower = subscribed();
    let mut teardowns = 0;
    let mut reports = 0;
    let events = vec![
        Event::Received(sample("1", None)),
        Event::Received(sample("2", Some("x"))),
        Event::ReceiveFailed,
        Event::ReceiveFailed,
        Event::Received(sample("3", Some("late"))),
        Event::SessionOpened,
        Event::SubscriberDeclared,
        Event::ReceiveFailed,
    ];
    for event in events {
        let before = follower.phase();
        let step = follower.advance(event);
        if before != Phase::Closing && follower.phase() == Phase::Closing {
            teardowns += 1;
            assert_eq!(step.work, Work::TearDown);
        }
        if step.report.is_some() {
            reports += 1;
        }
    }
    assert_eq!(teardowns, 1);
    assert_eq!(reports, 2);
    assert_eq!(follower.phase(), Phase::Closing);
    assert_eq!(follower.work(), Work::TearDown);
    follower.advance(Event::TornDown);
    assert_eq!(follower.phase(), Phase::Terminated);
    let step = follower.advance(Event::ReceiveFailed);
    assert_eq!(follower.phase(), Phase::Terminated);
    assert_eq!(step.work, Work::Nothing);
    let step = follower.advance(Event::TornDown);
    assert_eq!(follower.phase(), Phase::Terminated);
    assert_eq!(step.work, Work::Nothing);
}

#[test]
fn a_failure_before_any_sample_closes_at_once() {
    let mut follower = subscribed();
    let step = follower.advance(Event::ReceiveFailed);
    assert_eq!(follower.phase(), Phase::Closing);
    assert_eq!(step.work, Work::TearDown);
    assert!(step.report.is_none());
}

#[test]
fn an_event_out_of_turn_changes_nothing() {
    let mut follower = Follower::new();
    for event in [
        Event::SubscriberDeclared,
        Event::Received(sample("t", Some("m"))),
        Event::ReceiveFailed,
        Event::TornDown,
    ] {
        let step = follower.advance(event);
        assert_eq!(follower.phase(), Phase::Idle);
        assert_eq!(step.work, Work::OpenSession);
        assert!(step.report.is_none());
    }
    follower.advance(Event::SessionOpened);
    for event in [
        Event::SessionOpened,
        Event::Received(sample("t", None)),
        Event::ReceiveFailed,
        Event::TornDown,
    ] {
        let step = follower.advance(event);
        assert_eq!(follower.phase(), Phase::SessionOpen);
        assert_eq!(step.work, Work::DeclareSubscriber);
        assert!(step.report.is_none());
    }
    follower.advance(Event::SubscriberDeclared);
    for event in [Event::SessionOpened, Event::SubscriberDeclared, Event::TornDown] {
        let step = follower.advance(event);
        assert_eq!(follower.phase(), Phase::Subscribed);
        assert_eq!(step.work, Work::Receive);
        assert!(step.report.is_none());
    }
}

#[test]
fn the_work_of_each_phase() {
    assert_eq!(work_for(Phase::Idle), Work::OpenSession);
    assert_eq!(work_for(Phase::SessionOpen), Work::DeclareSubscriber);
    assert_eq!(work_for(Phase::Subscribed), Work::Receive);
    assert_eq!(work_for(Phase::Receiving), Work::Receive);
    assert_eq!(work_for(Phase::Closing), Work::TearDown);
    assert_eq!(work_for(Phase::Terminated), Work::Nothing);
}

#[test]
fn the_report_of_a_sample() {
    let report = report_for(sample("2026-01-01T00:00:00Z/abc", Some("IMUMessage { .. }")));
    assert_eq!(report.timestamp, "2026-01-01T00:00:00Z/abc");
    assert_eq!(report.line, "Received data: IMUMessage { .. }");
    let report = report_for(sample("", None));
    assert_eq!(report.timestamp, "");
    assert_eq!(report.line, "Failed to decode data");
}
