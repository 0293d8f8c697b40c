use deadman_notifier::bot::{
    create_scheduled_message, heartbeat_line, worker_step, AlertHandle, HeartbeatScheduler,
    ScheduleConfig, WorkerAction, WorkerEvent, WorkerOutcome, WorkerState,
};

fn cfg() -> ScheduleConfig {
    ScheduleConfig { schedule_interval: 300, sleep_interval: 60 }
}

fn expect_edit(action: WorkerAction) -> (AlertHandle, u64, String) {
    match action {
        WorkerAction::Edit { target, alert } => (target, alert.scheduled_time, alert.content),
        _ => panic!("expected an edit"),
    }
}

#[test]
fn empty_recipient_set_is_a_noop() {
    let scheduler = HeartbeatScheduler::new(cfg(), &Vec::new());
    assert!(scheduler.finished());
    assert!(!scheduler.had_errors());
    assert!(scheduler.report().is_empty());
}

#[test]
fn initial_alert_is_scheduled_one_interval_ahead() {
    let (state, action) = worker_step(WorkerState::NeedsResolution, WorkerEvent::Resolved, &cfg(), 1_000);
    assert!(matches!(state, WorkerState::Sending));
    match action {
        WorkerAction::SendInitial { alert } => {
            assert_eq!(alert.scheduled_time, 1_300);
            assert!(alert.content.starts_with(
                "SERVER DOWN ALERT!\n\nThe server monitoring system has stopped responding!\nLast alive: "
            ));
            assert!(alert.content.ends_with(
                "\n\nThis message indicates that the server has stopped responding and requires immediate attention."
            ));
        }
        _ => panic!("expected the initial send"),
    }
}

#[test]
fn rearm_times_are_recomputed_each_edit() {
    // One send, then edits at later moments: each edit's displayed time is
    // its own moment plus the schedule interval, not the send time's.
    let (state, _) = worker_step(WorkerState::NeedsResolution, WorkerEvent::Resolved, &cfg(), 0);
    let (state, action) =
        worker_step(state, WorkerEvent::Sent { target: AlertHandle { id: 7 } }, &cfg(), 10);
    let (first_target, first_time, _) = expect_edit(action);
    assert_eq!(first_target.id, 7);
    assert_eq!(first_time, 310);
    let (state, action) = worker_step(state, WorkerEvent::EditCompleted, &cfg(), 11);
    assert!(matches!(action, WorkerAction::Sleep { seconds: 60 }));
    let (state, action) = worker_step(state, WorkerEvent::SleepFinished, &cfg(), 71);
    let (target, time, _) = expect_edit(action);
    assert_eq!(target.id, 7);
    assert_eq!(time, 371);
    let (state, action) = worker_step(state, WorkerEvent::EditCompleted, &cfg(), 72);
    assert!(matches!(action, WorkerAction::Sleep { seconds: 60 }));
    let (_, action) = worker_step(state, WorkerEvent::SleepFinished, &cfg(), 132);
    let (target, time, _) = expect_edit(action);
    assert_eq!(target.id, 7);
    assert_eq!(time, 432);
}

#[test]
fn one_send_then_edits_only() {
    // A full cadence at the configured intervals: exactly one send, every
    // later action an edit or a sleep, edits 300 ahead of their own moment.
    let mut state = WorkerState::NeedsResolution;
    let mut sends = 0;
    let mut edits = Vec::new();
    let script: Vec<(WorkerEvent, u64)> = vec![
        (WorkerEvent::Resolved, 0),
        (WorkerEvent::Sent { target: AlertHandle { id: 9 } }, 5),
        (WorkerEvent::EditCompleted, 6),
        (WorkerEvent::SleepFinished, 65),
        (WorkerEvent::EditCompleted, 66),
        (WorkerEvent::SleepFinished, 125),
        (WorkerEvent::EditCompleted, 126),
        (WorkerEvent::Cancelled, 130),
    ];
    for (event, now) in script {
        let (next, action) = worker_step(state, event, &cfg(), now);
        match action {
            WorkerAction::SendInitial { alert } => {
                sends += 1;
                assert_eq!(alert.scheduled_time, now + 300);
            }
            WorkerAction::Edit { target, alert } => {
                assert_eq!(target.id, 9);
                assert_eq!(alert.scheduled_time, now + 300);
                edits.push(alert.scheduled_time);
            }
            WorkerAction::Sleep { seconds } => assert_eq!(seconds, 60),
            WorkerAction::Finish | WorkerAction::NoAction => {}
        }
        state = next;
    }
    assert_eq!(sends, 1);
    assert_eq!(edits, vec![305, 365, 425]);
    assert!(matches!(
        state,
        WorkerState::Stopped { outcome: WorkerOutcome::Cancelled }
    ));
}

#[test]
fn cancellation_while_idling_stops_without_an_edit() {
    let idling = WorkerState::Idling { target: AlertHandle { id: 3 } };
    let (state, action) = worker_step(idling, WorkerEvent::Cancelled, &cfg(), 500);
    assert!(matches!(
        state,
        WorkerState::Stopped { outcome: WorkerOutcome::Cancelled }
    ));
    assert!(matches!(action, WorkerAction::Finish));
}

#[test]
fn resolution_failure_is_isolated_to_its_worker() {
    let recipients = vec![String::from("alice"), String::from("bob")];
    let mut scheduler = HeartbeatScheduler::new(cfg(), &recipients);
    assert!(!scheduler.finished());
    // Worker 0 fails to resolve; worker 1 keeps making progress.
    let action = scheduler.step(0, WorkerEvent::RecipientMissing, 100);
    assert!(matches!(action, WorkerAction::Finish));
    assert!(scheduler.had_errors());
    let action = scheduler.step(1, WorkerEvent::Resolved, 100);
    assert!(matches!(action, WorkerAction::SendInitial { .. }));
    let action = scheduler.step(1, WorkerEvent::Sent { target: AlertHandle { id: 1 } }, 101);
    match action {
        WorkerAction::Edit { target, alert } => {
            assert_eq!(target.id, 1);
            assert_eq!(alert.scheduled_time, 401);
        }
        _ => panic!("expected worker 1 to re-arm"),
    }
    assert!(!scheduler.finished());
    let action = scheduler.step(1, WorkerEvent::EditCompleted, 102);
    assert!(matches!(action, WorkerAction::Sleep { seconds: 60 }));
    let action = scheduler.step(1, WorkerEvent::Cancelled, 103);
    assert!(matches!(action, WorkerAction::Finish));
    assert!(scheduler.finished());
    // Only the failed worker is reported.
    let report = scheduler.report();
    assert_eq!(report.len(), 1);
    assert_eq!(report[0], "Error handling messages for alice: User alice not found");
}

#[test]
fn send_failure_stops_only_that_worker() {
    let recipients = vec![String::from("carol")];
    let mut scheduler = HeartbeatScheduler::new(cfg(), &recipients);
    scheduler.step(0, WorkerEvent::Resolved, 0);
    let action = scheduler.step(
        0,
        WorkerEvent::SendFailed { message: String::from("flood wait") },
        1,
    );
    assert!(matches!(action, WorkerAction::Finish));
    assert!(scheduler.finished());
    assert!(scheduler.had_errors());
    let report = scheduler.report();
    assert_eq!(report, vec![String::from("Error handling messages for carol: flood wait")]);
}

#[test]
fn edit_failure_is_worker_fatal() {
    let (state, action) = worker_step(
        WorkerState::Editing { target: AlertHandle { id: 4 } },
        WorkerEvent::EditFailed { message: String::from("blocked") },
        &cfg(),
        50,
    );
    assert!(matches!(action, WorkerAction::Finish));
    assert!(matches!(
        state,
        WorkerState::Stopped { outcome: WorkerOutcome::DeliveryFailed { .. } }
    ));
}

#[test]
fn cancelled_worker_reports_no_error() {
    let recipients = vec![String::from("dave")];
    let mut scheduler = HeartbeatScheduler::new(cfg(), &recipients);
    scheduler.step(0, WorkerEvent::Cancelled, 0);
    assert!(scheduler.finished());
    assert!(!scheduler.had_errors());
    assert!(scheduler.report().is_empty());
}

#[test]
fn created_message_embeds_a_timestamp_in_the_template() {
    let alert = create_scheduled_message(300, 2_000);
    assert_eq!(alert.scheduled_time, 2_300);
    let prefix =
        "SERVER DOWN ALERT!\n\nThe server monitoring system has stopped responding!\nLast alive: ";
    let suffix =
        "\n\nThis message indicates that the server has stopped responding and requires immediate attention.";
    assert!(alert.content.starts_with(prefix));
    assert!(alert.content.ends_with(suffix));
    // The embedded timestamp is really there: the content is longer than
    // the bare template.
    assert!(alert.content.len() > prefix.len() + suffix.len());
}

#[test]
fn heartbeat_line_names_recipient_and_interval() {
    let line = heartbeat_line("bob", 300);
    assert!(line.starts_with("["));
    assert!(line.contains("] Heartbeat sent for bob (next check in 300 seconds)"));
}
