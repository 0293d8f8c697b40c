//! The heartbeat scheduler: recipient-list parsing, alert construction and
//! the per-recipient re-arm state machine.
//!
//! Each configured recipient gets one worker.  A worker resolves its
//! recipient, sends one initial scheduled alert, and then re-arms that same
//! alert indefinitely: edit, idle, edit again, until cancelled or until a
//! transport failure stops it.  The machine here decides every transition;
//! the surrounding program performs the transport calls and the idle waits
//! and feeds the outcomes back in as events, together with the wall-clock
//! second at which each event arrived.

use vstd::prelude::*;
use crate::text::dec_digits;
use crate::text::trim;
use crate::text::trim_slice;
use crate::text::u64_to_string;

verus! {

/// The comma-separated fields of `s`: splitting on every comma, keeping
/// empty fields.  The empty input has one empty field.
pub open spec fn fields(s: Seq<char>) -> Seq<Seq<char>>
    decreases s.len(),
{
    if s.len() == 0 {
        seq![Seq::<char>::empty()]
    } else {
        let head = fields(s.drop_last());
        let c = s.last();
        if c == ',' {
            head.push(Seq::<char>::empty())
        } else {
            head.update(head.len() - 1, head.last().push(c))
        }
    }
}

/// A split always yields at least one field.
pub proof fn lemma_fields_nonempty(s: Seq<char>)
    ensures
        fields(s).len() >= 1,
    decreases s.len(),
{
    if s.len() > 0 {
        lemma_fields_nonempty(s.drop_last());
    }
}

/// The recipient handles named by a comma-separated list: each field,
/// trimmed, with empty fields dropped.
pub open spec fn usernames_spec(s: Seq<char>) -> Seq<Seq<char>> {
    fields(s).map_values(|f: Seq<char>| trim(f)).filter(|f: Seq<char>| f.len() > 0)
}

/// Splits a comma-separated recipient list into handles: each field is
/// trimmed of surrounding whitespace and empty fields are dropped, so an
/// empty or all-whitespace input yields no handles.
pub fn parse_usernames(input: &str) -> (r: Vec<String>)
    ensures
        r@.map_values(|s: String| s@) == usernames_spec(input@),
{
    let n = input.unicode_len();
    let mut result: Vec<String> = Vec::new();
    let mut start: usize = 0;
    let mut i: usize = 0;
    proof {
        assert(input@.subrange(0, 0) =~= Seq::<char>::empty());
        reveal_with_fuel(fields, 1);
        assert(result@.map_values(|s: String| s@) =~= Seq::<Seq<char>>::empty());
        assert(fields(Seq::<char>::empty()).drop_last() =~= Seq::<Seq<char>>::empty());
        assert(Seq::<Seq<char>>::empty().map_values(|f: Seq<char>| trim(f)) =~= Seq::<
            Seq<char>,
        >::empty());
    }
    while i < n
        invariant
            0 <= start <= i <= n,
            n == input@.len(),
            fields(input@.subrange(0, i as int)).last() == input@.subrange(
                start as int,
                i as int,
            ),
            result@.map_values(|s: String| s@) == fields(
                input@.subrange(0, i as int),
            ).drop_last().map_values(|f: Seq<char>| trim(f)).filter(|f: Seq<char>| f.len() > 0),
        decreases n - i,
    {
        let ghost prefix = input@.subrange(0, i as int);
        let ghost next_prefix = input@.subrange(0, i + 1);
        proof {
            lemma_fields_nonempty(prefix);
            assert(next_prefix.drop_last() =~= prefix);
            assert(next_prefix.last() == input@[i as int]);
        }
        let c = input.get_char(i);
        if c == ',' {
            let field = input.substring_char(start, i);
            let trimmed = trim_slice(field);
            proof {
                assert(fields(next_prefix) == fields(prefix).push(Seq::<char>::empty()));
                assert(fields(next_prefix).drop_last() =~= fields(prefix));
                let done = fields(prefix).drop_last();
                let f = fields(prefix).last();
                assert(fields(prefix) =~= done.push(f));
                assert(done.push(f).map_values(|g: Seq<char>| trim(g)) =~= done.map_values(
                    |g: Seq<char>| trim(g),
                ).push(trim(f)));
                reveal_with_fuel(Seq::<_>::filter, 2);
                assert(done.map_values(|g: Seq<char>| trim(g)).push(trim(f)).drop_last() =~= done.map_values(
                    |g: Seq<char>| trim(g),
                ));
                assert(trimmed@ == trim(f));
            }
            if trimmed.unicode_len() > 0 {
                result.push(String::from_str(trimmed));
                proof {
                    let done = fields(prefix).drop_last();
                    assert(result@.map_values(|s: String| s@) =~= done.map_values(
                        |g: Seq<char>| trim(g),
                    ).push(trim(fields(prefix).last())).filter(|f: Seq<char>| f.len() > 0));
                }
            } else {
                proof {
                    let done = fields(prefix).drop_last();
                    assert(result@.map_values(|s: String| s@) =~= done.map_values(
                        |g: Seq<char>| trim(g),
                    ).push(trim(fields(prefix).last())).filter(|f: Seq<char>| f.len() > 0));
                }
            }
            start = i + 1;
            proof {
                assert(fields(next_prefix).last() =~= input@.subrange(
                    start as int,
                    i + 1,
                ));
            }
        } else {
            proof {
                let head = fields(prefix);
                assert(fields(next_prefix) == head.update(
                    head.len() - 1,
                    head.last().push(input@[i as int]),
                ));
                assert(fields(next_prefix).drop_last() =~= head.drop_last());
                assert(fields(next_prefix).last() == head.last().push(input@[i as int]));
                assert(head.last().push(input@[i as int]) =~= input@.subrange(
                    start as int,
                    i + 1,
                ));
            }
        }
        i = i + 1;
    }
    proof {
        assert(input@.subrange(0, n as int) =~= input@);
        lemma_fields_nonempty(input@);
    }
    let field = input.substring_char(start, n);
    let trimmed = trim_slice(field);
    proof {
        let done = fields(input@).drop_last();
        let f = fields(input@).last();
        assert(fields(input@) =~= done.push(f));
        assert(done.push(f).map_values(|g: Seq<char>| trim(g)) =~= done.map_values(
            |g: Seq<char>| trim(g),
        ).push(trim(f)));
        reveal_with_fuel(Seq::<_>::filter, 2);
        assert(done.map_values(|g: Seq<char>| trim(g)).push(trim(f)).drop_last() =~= done.map_values(
            |g: Seq<char>| trim(g),
        ));
        assert(trimmed@ == trim(f));
    }
    if trimmed.unicode_len() > 0 {
        result.push(String::from_str(trimmed));
    }
    proof {
        let done = fields(input@).drop_last();
        assert(result@.map_values(|s: String| s@) =~= done.map_values(
            |g: Seq<char>| trim(g),
        ).push(trim(fields(input@).last())).filter(|f: Seq<char>| f.len() > 0));
        assert(usernames_spec(input@) == done.map_values(|g: Seq<char>| trim(g)).push(
            trim(fields(input@).last()),
        ).filter(|f: Seq<char>| f.len() > 0));
    }
    result
}

/// The two durations that drive a worker.
#[derive(Clone, Copy, PartialEq, Eq, Structural)]
pub struct ScheduleConfig {
    /// How far in the future each alert's displayed time is set, in seconds.
    pub schedule_interval: u64,
    /// How long a worker idles between re-arm edits, in seconds.
    pub sleep_interval: u64,
}

impl ScheduleConfig {
    /// Both durations are strictly positive.
    pub open spec fn valid(self) -> bool {
        self.schedule_interval > 0 && self.sleep_interval > 0
    }
}

/// The identifier of the message object created by the initial send; every
/// later edit targets it.
#[derive(Clone, Copy, PartialEq, Eq, Structural)]
pub struct AlertHandle {
    /// The transport's message identifier.
    pub id: i32,
}

/// An alert ready to send or to write over a previously sent one: its text
/// and the future second its displayed time is set to.
pub struct ScheduledAlert {
    /// The message text: the fixed template around a timestamp.
    pub content: String,
    /// Seconds since the epoch at which the alert is displayed as due.
    pub scheduled_time: u64,
}

/// The alert text around a rendered timestamp: a fixed template whose only
/// varying part is the embedded time.
pub open spec fn alert_content(time_text: Seq<char>) -> Seq<char> {
    "SERVER DOWN ALERT!\n\nThe server monitoring system has stopped responding!\nLast alive: "@
        + time_text
        + "\n\nThis message indicates that the server has stopped responding and requires immediate attention."@
}

/// Some rendered timestamp sits in the fixed alert template around `c`.
pub open spec fn is_alert_content(c: Seq<char>) -> bool {
    exists|t: Seq<char>| c == alert_content(t)
}

/// Relies on `chrono::Local::now` and `chrono::format::DelayedFormat`: the
/// current local wall-clock time rendered as `YYYY-MM-DD HH:MM:SS TZ`.  The
/// result depends on the clock and the machine's time zone, so nothing is
/// claimed of it.
#[verifier::external_body]
fn local_timestamp_text() -> (r: String) {
    chrono::Local::now().format("%Y-%m-%d %H:%M:%S %Z").to_string()
}

/// Relies on `chrono::Local::now` and `chrono::format::DelayedFormat`: the
/// current local wall-clock time rendered as `HH:MM:SS`.  The result depends
/// on the clock and the machine's time zone, so nothing is claimed of it.
#[verifier::external_body]
fn local_clock_text() -> (r: String) {
    chrono::Local::now().format("%H:%M:%S").to_string()
}

/// Builds the alert that embeds `time_text`, displayed as due
/// `delay_seconds` after `now`.
pub fn build_alert(time_text: &str, now: u64, delay_seconds: u64) -> (a: ScheduledAlert)
    requires
        now + delay_seconds <= u64::MAX,
    ensures
        a.content@ == alert_content(time_text@),
        a.scheduled_time == now + delay_seconds,
{
    let mut content = String::from_str(
        "SERVER DOWN ALERT!\n\nThe server monitoring system has stopped responding!\nLast alive: ",
    );
    content.append(time_text);
    content.append(
        "\n\nThis message indicates that the server has stopped responding and requires immediate attention.",
    );
    ScheduledAlert { content, scheduled_time: now + delay_seconds }
}

/// Builds the alert for the current moment: the fixed template around the
/// local wall-clock time, displayed as due `delay_seconds` after `now`.
pub fn create_scheduled_message(delay_seconds: u64, now: u64) -> (a: ScheduledAlert)
    requires
        now + delay_seconds <= u64::MAX,
    ensures
        a.scheduled_time == now + delay_seconds,
        is_alert_content(a.content@),
{
    let stamp = local_timestamp_text();
    let a = build_alert(stamp.as_str(), now, delay_seconds);
    proof {
        assert(a.content@ == alert_content(stamp@));
    }
    a
}

/// The status line written after each successful re-arm edit.
pub open spec fn heartbeat_text(clock: Seq<char>, recipient: Seq<char>, interval: nat) -> Seq<
    char,
> {
    "["@ + clock + "] Heartbeat sent for "@ + recipient + " (next check in "@ + dec_digits(
        interval,
    ) + " seconds)"@
}

/// Renders the heartbeat status line for a given clock reading.
pub fn format_heartbeat(clock: &str, recipient: &str, interval: u64) -> (r: String)
    ensures
        r@ == heartbeat_text(clock@, recipient@, interval as nat),
{
    let mut r = String::from_str("[");
    r.append(clock);
    r.append("] Heartbeat sent for ");
    r.append(recipient);
    r.append(" (next check in ");
    let n = u64_to_string(interval);
    r.append(n.as_str());
    r.append(" seconds)");
    r
}

/// Renders the heartbeat status line at the current local wall-clock time.
pub fn heartbeat_line(recipient: &str, interval: u64) -> (r: String)
    ensures
        exists|clock: Seq<char>| r@ == heartbeat_text(clock, recipient@, interval as nat),
{
    let clock = local_clock_text();
    let r = format_heartbeat(clock.as_str(), recipient, interval);
    proof {
        assert(r@ == heartbeat_text(clock@, recipient@, interval as nat));
    }
    r
}

/// Why a worker stopped.
pub enum WorkerOutcome {
    /// The shutdown signal arrived; not an error.
    Cancelled,
    /// The recipient handle resolved to nobody.
    NotFound,
    /// Resolving the recipient handle failed.
    ResolutionFailed {
        /// The transport's text for the failure.
        message: String,
    },
    /// The initial send or a re-arm edit failed.
    DeliveryFailed {
        /// The transport's text for the failure.
        message: String,
    },
}

impl WorkerOutcome {
    /// The outcome is an error a finished run must report.
    pub open spec fn is_error(self) -> bool {
        !(self is Cancelled)
    }
}

/// Where one recipient's worker stands.
pub enum WorkerState {
    /// The recipient handle has not been resolved yet.
    NeedsResolution,
    /// The initial scheduled alert has been handed out for sending.
    Sending,
    /// A re-arm edit has been handed out and its outcome is owed.
    Editing {
        /// The message the edit targets.
        target: AlertHandle,
    },
    /// The last edit succeeded; the worker idles until the next one.
    Idling {
        /// The message the next edit will target.
        target: AlertHandle,
    },
    /// Terminal: the worker is done, with its outcome.
    Stopped {
        /// Why the worker stopped.
        outcome: WorkerOutcome,
    },
}

impl WorkerState {
    /// The worker accepts no further event.
    pub open spec fn is_terminal(self) -> bool {
        self is Stopped
    }

    /// The alert the worker targets, once the initial send has succeeded.
    pub open spec fn handle(self) -> Option<AlertHandle> {
        match self {
            WorkerState::Editing { target } => Some(target),
            WorkerState::Idling { target } => Some(target),
            _ => None,
        }
    }
}

/// The outcome of the last requested action, fed back into the machine
/// together with the second at which it arrived.
pub enum WorkerEvent {
    /// The recipient handle resolved to a reference the transport holds.
    Resolved,
    /// The recipient handle resolved to nobody.
    RecipientMissing,
    /// Resolving the recipient handle failed.
    ResolutionError {
        /// The transport's text for the failure.
        message: String,
    },
    /// The initial send succeeded and created this message.
    Sent {
        /// The created message.
        target: AlertHandle,
    },
    /// The initial send failed.
    SendFailed {
        /// The transport's text for the failure.
        message: String,
    },
    /// The re-arm edit succeeded.
    EditCompleted,
    /// The re-arm edit failed.
    EditFailed {
        /// The transport's text for the failure.
        message: String,
    },
    /// The idle wait ran its course.
    SleepFinished,
    /// The shutdown signal arrived.
    Cancelled,
}

/// What the driving program must do next for this worker.
pub enum WorkerAction {
    /// Send this alert to the resolved recipient.
    SendInitial {
        /// The alert to send.
        alert: ScheduledAlert,
    },
    /// Write this alert over the previously sent message.
    Edit {
        /// The message to write over.
        target: AlertHandle,
        /// The alert to write.
        alert: ScheduledAlert,
    },
    /// Emit the heartbeat status line, then idle, cancellably.
    Sleep {
        /// How long to idle, in seconds.
        seconds: u64,
    },
    /// The worker is done; report its outcome.
    Finish,
    /// Nothing: the event was not one this state awaits.
    NoAction,
}

/// The alert is freshly built for `now`: its displayed time sits one
/// schedule interval ahead of `now` and its text is the fixed template
/// around some rendered timestamp.
pub open spec fn fresh_alert(a: ScheduledAlert, cfg: ScheduleConfig, now: u64) -> bool {
    &&& a.scheduled_time == now + cfg.schedule_interval
    &&& is_alert_content(a.content@)
}

/// The transition relation of one recipient's worker: from a state and the
/// outcome of the last action, at wall-clock second `now`, to the next
/// state and the next action.  An event a state does not await leaves the
/// state unchanged and requests nothing.
pub open spec fn worker_step_ok(
    pre: WorkerState,
    event: WorkerEvent,
    cfg: ScheduleConfig,
    now: u64,
    post: WorkerState,
    action: WorkerAction,
) -> bool {
    match pre {
        WorkerState::NeedsResolution => match event {
            WorkerEvent::Resolved => {
                &&& post == WorkerState::Sending
                &&& action matches WorkerAction::SendInitial { alert } && fresh_alert(
                    alert,
                    cfg,
                    now,
                )
            },
            WorkerEvent::RecipientMissing => {
                &&& post == (WorkerState::Stopped { outcome: WorkerOutcome::NotFound })
                &&& action == WorkerAction::Finish
            },
            WorkerEvent::ResolutionError { message } => {
                &&& post == (WorkerState::Stopped {
                    outcome: WorkerOutcome::ResolutionFailed { message },
                })
                &&& action == WorkerAction::Finish
            },
            WorkerEvent::Cancelled => {
                &&& post == (WorkerState::Stopped { outcome: WorkerOutcome::Cancelled })
                &&& action == WorkerAction::Finish
            },
            _ => post == pre && action == WorkerAction::NoAction,
        },
        WorkerState::Sending => match event {
            WorkerEvent::Sent { target } => {
                &&& post == (WorkerState::Editing { target })
                &&& action matches WorkerAction::Edit { target: t, alert } && t == target
                    && fresh_alert(alert, cfg, now)
            },
            WorkerEvent::SendFailed { message } => {
                &&& post == (WorkerState::Stopped {
                    outcome: WorkerOutcome::DeliveryFailed { message },
                })
                &&& action == WorkerAction::Finish
            },
            WorkerEvent::Cancelled => {
                &&& post == (WorkerState::Stopped { outcome: WorkerOutcome::Cancelled })
                &&& action == WorkerAction::Finish
            },
            _ => post == pre && action == WorkerAction::NoAction,
        },
        WorkerState::Editing { target } => match event {
            WorkerEvent::EditCompleted => {
                &&& post == (WorkerState::Idling { target })
                &&& action == (WorkerAction::Sleep { seconds: cfg.sleep_interval })
            },
            WorkerEvent::EditFailed { message } => {
                &&& post == (WorkerState::Stopped {
                    outcome: WorkerOutcome::DeliveryFailed { message },
                })
                &&& action == WorkerAction::Finish
            },
            WorkerEvent::Cancelled => {
                &&& post == (WorkerState::Stopped { outcome: WorkerOutcome::Cancelled })
                &&& action == WorkerAction::Finish
            },
            _ => post == pre && action == WorkerAction::NoAction,
        },
        WorkerState::Idling { target } => match event {
            WorkerEvent::SleepFinished => {
                &&& post == (WorkerState::Editing { target })
                &&& action matches WorkerAction::Edit { target: t, alert } && t == target
                    && fresh_alert(alert, cfg, now)
            },
            WorkerEvent::Cancelled => {
                &&& post == (WorkerState::Stopped { outcome: WorkerOutcome::Cancelled })
                &&& action == WorkerAction::Finish
            },
            _ => post == pre && action == WorkerAction::NoAction,
        },
        WorkerState::Stopped { outcome: _ } => post == pre && action == WorkerAction::NoAction,
    }
}

/// One step of a recipient's worker at wall-clock second `now`.
pub fn worker_step(state: WorkerState, event: WorkerEvent, cfg: &ScheduleConfig, now: u64) -> (r:
    (WorkerState, WorkerAction))
    requires
        now + cfg.schedule_interval <= u64::MAX,
    ensures
        worker_step_ok(state, event, *cfg, now, r.0, r.1),
{
    match (state, event) {
        (WorkerState::NeedsResolution, WorkerEvent::Resolved) => {
            let alert = create_scheduled_message(cfg.schedule_interval, now);
            (WorkerState::Sending, WorkerAction::SendInitial { alert })
        },
        (WorkerState::NeedsResolution, WorkerEvent::RecipientMissing) => {
            (WorkerState::Stopped { outcome: WorkerOutcome::NotFound }, WorkerAction::Finish)
        },
        (WorkerState::NeedsResolution, WorkerEvent::ResolutionError { message }) => {
            (
                WorkerState::Stopped { outcome: WorkerOutcome::ResolutionFailed { message } },
                WorkerAction::Finish,
            )
        },
        (WorkerState::Sending, WorkerEvent::Sent { target }) => {
            let alert = create_scheduled_message(cfg.schedule_interval, now);
            (WorkerState::Editing { target }, WorkerAction::Edit { target, alert })
        },
        (WorkerState::Sending, WorkerEvent::SendFailed { message }) => {
            (
                WorkerState::Stopped { outcome: WorkerOutcome::DeliveryFailed { message } },
                WorkerAction::Finish,
            )
        },
        (WorkerState::Editing { target }, WorkerEvent::EditCompleted) => {
            (
                WorkerState::Idling { target },
                WorkerAction::Sleep { seconds: cfg.sleep_interval },
            )
        },
        (WorkerState::Editing { target: _ }, WorkerEvent::EditFailed { message }) => {
            (
                WorkerState::Stopped { outcome: WorkerOutcome::DeliveryFailed { message } },
                WorkerAction::Finish,
            )
        },
        (WorkerState::Idling { target }, WorkerEvent::SleepFinished) => {
            let alert = create_scheduled_message(cfg.schedule_interval, now);
            (WorkerState::Editing { target }, WorkerAction::Edit { target, alert })
        },
        (WorkerState::Stopped { outcome }, _) => {
            (WorkerState::Stopped { outcome }, WorkerAction::NoAction)
        },
        (s, WorkerEvent::Cancelled) => {
            (WorkerState::Stopped { outcome: WorkerOutcome::Cancelled }, WorkerAction::Finish)
        },
        (s, _) => (s, WorkerAction::NoAction),
    }
}

/// A complete run of one worker: `states` are the visited states, one more
/// than the events consumed; `actions[k]` is what the step on `events[k]`,
/// taken at wall-clock second `times[k]`, requested.
pub open spec fn worker_trace_ok(
    init: WorkerState,
    events: Seq<WorkerEvent>,
    times: Seq<u64>,
    cfg: ScheduleConfig,
    states: Seq<WorkerState>,
    actions: Seq<WorkerAction>,
) -> bool {
    &&& states.len() == events.len() + 1
    &&& actions.len() == events.len()
    &&& times.len() == events.len()
    &&& states[0] == init
    &&& forall|k: int|
        0 <= k < events.len() ==> worker_step_ok(
            states[k],
            events[k],
            cfg,
            times[k],
            states[k + 1],
            actions[k],
        )
}

/// How many initial sends a run requested.
pub open spec fn count_sends(actions: Seq<WorkerAction>) -> int
    decreases actions.len(),
{
    if actions.len() == 0 {
        0
    } else {
        count_sends(actions.drop_last()) + (
        if actions.last() matches WorkerAction::SendInitial { alert: _ } {
            1int
        } else {
            0int
        })
    }
}

/// Law: every alert a worker hands out — the initial send and every re-arm
/// edit alike — is displayed as due exactly one schedule interval after the
/// wall-clock second of the step that built it, freshly recomputed, and its
/// text is the fixed template around some rendered timestamp.
pub proof fn lemma_alert_times(
    init: WorkerState,
    events: Seq<WorkerEvent>,
    times: Seq<u64>,
    cfg: ScheduleConfig,
    states: Seq<WorkerState>,
    actions: Seq<WorkerAction>,
)
    requires
        worker_trace_ok(init, events, times, cfg, states, actions),
    ensures
        forall|k: int|
            0 <= k < actions.len() ==> ((#[trigger] actions[k]) matches WorkerAction::SendInitial {
                alert,
            } ==> fresh_alert(alert, cfg, times[k])),
        forall|k: int|
            0 <= k < actions.len() ==> ((#[trigger] actions[k]) matches WorkerAction::Edit {
                target: _,
                alert,
            } ==> fresh_alert(alert, cfg, times[k])),
        forall|k: int|
            0 <= k < actions.len() ==> ((#[trigger] actions[k]) matches WorkerAction::Sleep {
                seconds,
            } ==> seconds == cfg.sleep_interval),
{
    assert forall|k: int| 0 <= k < actions.len() implies ((#[trigger] actions[k]) matches WorkerAction::SendInitial {
        alert,
    } ==> fresh_alert(alert, cfg, times[k])) && (actions[k] matches WorkerAction::Edit {
        target: _,
        alert,
    } ==> fresh_alert(alert, cfg, times[k])) && (actions[k] matches WorkerAction::Sleep { seconds }
        ==> seconds == cfg.sleep_interval) by {
        assert(worker_step_ok(states[k], events[k], cfg, times[k], states[k + 1], actions[k]));
    }
}

/// Once a worker holds an alert handle it never exchanges it for another:
/// at any later point it either still holds the same handle or has stopped.
pub proof fn lemma_handle_stable(
    init: WorkerState,
    events: Seq<WorkerEvent>,
    times: Seq<u64>,
    cfg: ScheduleConfig,
    states: Seq<WorkerState>,
    actions: Seq<WorkerAction>,
    j1: int,
    j2: int,
    h: AlertHandle,
)
    requires
        worker_trace_ok(init, events, times, cfg, states, actions),
        0 <= j1 <= j2 < states.len(),
        states[j1].handle() == Some(h),
    ensures
        states[j2].handle() == Some(h) || states[j2] is Stopped,
    decreases j2 - j1,
{
    if j2 > j1 {
        lemma_handle_stable(init, events, times, cfg, states, actions, j1, j2 - 1, h);
        assert(worker_step_ok(
            states[j2 - 1],
            events[j2 - 1],
            cfg,
            times[j2 - 1],
            states[j2],
            actions[j2 - 1],
        ));
    }
}

/// An edit's target is the handle the worker holds right after that step.
pub proof fn lemma_edit_target_is_handle(
    init: WorkerState,
    events: Seq<WorkerEvent>,
    times: Seq<u64>,
    cfg: ScheduleConfig,
    states: Seq<WorkerState>,
    actions: Seq<WorkerAction>,
    k: int,
)
    requires
        worker_trace_ok(init, events, times, cfg, states, actions),
        0 <= k < actions.len(),
    ensures
        actions[k] matches WorkerAction::Edit { target, alert: _ } ==> states[k + 1].handle()
            == Some(target),
{
    assert(worker_step_ok(states[k], events[k], cfg, times[k], states[k + 1], actions[k]));
}

/// Law: all re-arm edits of one run target one and the same message: the
/// alert handle's identity never changes across edits.
pub proof fn lemma_edits_share_target(
    init: WorkerState,
    events: Seq<WorkerEvent>,
    times: Seq<u64>,
    cfg: ScheduleConfig,
    states: Seq<WorkerState>,
    actions: Seq<WorkerAction>,
    k1: int,
    k2: int,
    t1: AlertHandle,
    t2: AlertHandle,
    a1: ScheduledAlert,
    a2: ScheduledAlert,
)
    requires
        worker_trace_ok(init, events, times, cfg, states, actions),
        0 <= k1 <= k2 < actions.len(),
        actions[k1] == (WorkerAction::Edit { target: t1, alert: a1 }),
        actions[k2] == (WorkerAction::Edit { target: t2, alert: a2 }),
    ensures
        t1 == t2,
{
    lemma_edit_target_is_handle(init, events, times, cfg, states, actions, k1);
    lemma_edit_target_is_handle(init, events, times, cfg, states, actions, k2);
    lemma_handle_stable(init, events, times, cfg, states, actions, k1 + 1, k2 + 1, t1);
}

/// A worker that holds an alert handle got it from the transport's answer
/// to its one initial send: some earlier step consumed `Sent` with exactly
/// that handle.
pub proof fn lemma_handle_from_send(
    events: Seq<WorkerEvent>,
    times: Seq<u64>,
    cfg: ScheduleConfig,
    states: Seq<WorkerState>,
    actions: Seq<WorkerAction>,
    j: int,
    h: AlertHandle,
)
    requires
        worker_trace_ok(WorkerState::NeedsResolution, events, times, cfg, states, actions),
        0 <= j < states.len(),
        states[j].handle() == Some(h),
    ensures
        exists|m: int| 0 <= m < j && events[m] == (WorkerEvent::Sent { target: h }),
    decreases j,
{
    if j == 0 {
        assert(false);
    } else {
        assert(worker_step_ok(
            states[j - 1],
            events[j - 1],
            cfg,
            times[j - 1],
            states[j],
            actions[j - 1],
        ));
        if states[j - 1].handle() == Some(h) {
            lemma_handle_from_send(events, times, cfg, states, actions, j - 1, h);
        } else {
            assert(events[j - 1] == (WorkerEvent::Sent { target: h }));
        }
    }
}

/// Law: every edit of a run that began unresolved targets the message
/// created by the initial send whose `Sent` answer the run consumed.
pub proof fn lemma_edits_target_sent_message(
    events: Seq<WorkerEvent>,
    times: Seq<u64>,
    cfg: ScheduleConfig,
    states: Seq<WorkerState>,
    actions: Seq<WorkerAction>,
    k: int,
    t: AlertHandle,
    a: ScheduledAlert,
)
    requires
        worker_trace_ok(WorkerState::NeedsResolution, events, times, cfg, states, actions),
        0 <= k < actions.len(),
        actions[k] == (WorkerAction::Edit { target: t, alert: a }),
    ensures
        exists|m: int| 0 <= m <= k && events[m] == (WorkerEvent::Sent { target: t }),
{
    lemma_edit_target_is_handle(
        WorkerState::NeedsResolution,
        events,
        times,
        cfg,
        states,
        actions,
        k,
    );
    lemma_handle_from_send(events, times, cfg, states, actions, k + 1, t);
}

/// Law: a run that began unresolved performs at most one initial send;
/// re-arming only ever edits.
pub proof fn lemma_at_most_one_send(
    events: Seq<WorkerEvent>,
    times: Seq<u64>,
    cfg: ScheduleConfig,
    states: Seq<WorkerState>,
    actions: Seq<WorkerAction>,
    j: int,
)
    requires
        worker_trace_ok(WorkerState::NeedsResolution, events, times, cfg, states, actions),
        0 <= j <= actions.len(),
    ensures
        count_sends(actions.take(j)) <= 1,
        states[j] is NeedsResolution ==> count_sends(actions.take(j)) == 0,
    decreases j,
{
    if j == 0 {
        assert(actions.take(0) =~= Seq::<WorkerAction>::empty());
    } else {
        lemma_at_most_one_send(events, times, cfg, states, actions, j - 1);
        assert(actions.take(j).drop_last() =~= actions.take(j - 1));
        assert(actions.take(j).last() == actions[j - 1]);
        assert(worker_step_ok(
            states[j - 1],
            events[j - 1],
            cfg,
            times[j - 1],
            states[j],
            actions[j - 1],
        ));
    }
}

/// Law: the heartbeat cadence of a whole run that began unresolved.  The
/// run sends at most once; every alert it hands out — the send and each
/// re-arm edit — is displayed as due exactly one schedule interval after
/// the step that built it; and every idle it requests lasts exactly the
/// configured sleep interval, so consecutive edits sit one sleep interval
/// apart whenever the idles are honoured.
pub proof fn lemma_heartbeat_cadence(
    events: Seq<WorkerEvent>,
    times: Seq<u64>,
    cfg: ScheduleConfig,
    states: Seq<WorkerState>,
    actions: Seq<WorkerAction>,
)
    requires
        worker_trace_ok(WorkerState::NeedsResolution, events, times, cfg, states, actions),
    ensures
        count_sends(actions) <= 1,
        forall|k: int|
            0 <= k < actions.len() ==> ((#[trigger] actions[k]) matches WorkerAction::SendInitial {
                alert,
            } ==> alert.scheduled_time == times[k] + cfg.schedule_interval),
        forall|k: int|
            0 <= k < actions.len() ==> ((#[trigger] actions[k]) matches WorkerAction::Edit {
                target: _,
                alert,
            } ==> alert.scheduled_time == times[k] + cfg.schedule_interval),
        forall|k: int|
            0 <= k < actions.len() ==> ((#[trigger] actions[k]) matches WorkerAction::Sleep {
                seconds,
            } ==> seconds == cfg.sleep_interval),
{
    lemma_at_most_one_send(events, times, cfg, states, actions, actions.len() as int);
    assert(actions.take(actions.len() as int) =~= actions);
    lemma_alert_times(WorkerState::NeedsResolution, events, times, cfg, states, actions);
}

/// Law: cancellation delivered while a worker idles stops it at once: the
/// worker finishes with the cancelled outcome and requests no further edit.
pub proof fn lemma_cancel_while_idling(
    target: AlertHandle,
    cfg: ScheduleConfig,
    now: u64,
    post: WorkerState,
    action: WorkerAction,
)
    requires
        worker_step_ok(
            WorkerState::Idling { target },
            WorkerEvent::Cancelled,
            cfg,
            now,
            post,
            action,
        ),
    ensures
        post == (WorkerState::Stopped { outcome: WorkerOutcome::Cancelled }),
        action == WorkerAction::Finish,
{
}

/// One recipient's worker: the handle it serves and where it stands.
pub struct Worker {
    /// The recipient handle this worker serves.
    pub recipient: String,
    /// Where the worker stands.
    pub state: WorkerState,
}

impl Worker {
    /// The worker stopped with an outcome a finished run must report.
    pub open spec fn is_failed(self) -> bool {
        self.state matches WorkerState::Stopped { outcome } && outcome.is_error()
    }
}

/// The fan-out over all configured recipients: one independent worker per
/// recipient handle, all driven against one shared transport.
pub struct HeartbeatScheduler {
    /// The durations every worker runs with.
    pub config: ScheduleConfig,
    /// One worker per configured recipient, in the order given.
    pub workers: Vec<Worker>,
}

/// The cause text a stopped worker's outcome reports, if it is an error.
pub open spec fn outcome_cause(recipient: Seq<char>, outcome: WorkerOutcome) -> Option<Seq<char>> {
    match outcome {
        WorkerOutcome::Cancelled => None,
        WorkerOutcome::NotFound => Some("User "@ + recipient + " not found"@),
        WorkerOutcome::ResolutionFailed { message } => Some(message@),
        WorkerOutcome::DeliveryFailed { message } => Some(message@),
    }
}

/// The error line reported for one failed worker.
pub open spec fn error_line(recipient: Seq<char>, cause: Seq<char>) -> Seq<char> {
    "Error handling messages for "@ + recipient + ": "@ + cause
}

/// The error lines of a run, one per failed worker, in worker order.
pub open spec fn report_lines(ws: Seq<Worker>) -> Seq<Seq<char>>
    decreases ws.len(),
{
    if ws.len() == 0 {
        Seq::empty()
    } else {
        let head = report_lines(ws.drop_last());
        let w = ws.last();
        match w.state {
            WorkerState::Stopped { outcome } => match outcome_cause(w.recipient@, outcome) {
                Some(cause) => head.push(error_line(w.recipient@, cause)),
                None => head,
            },
            _ => head,
        }
    }
}

/// Renders the error line for one worker outcome; a cancelled worker
/// reports nothing.
pub fn worker_error_line(recipient: &str, outcome: &WorkerOutcome) -> (r: Option<String>)
    ensures
        outcome_cause(recipient@, *outcome) is None ==> r is None,
        forall|cause: Seq<char>|
            outcome_cause(recipient@, *outcome) == Some(cause) ==> (r matches Some(line)
                && line@ == error_line(recipient@, cause)),
{
    let cause: String = match outcome {
        WorkerOutcome::Cancelled => {
            return None;
        },
        WorkerOutcome::NotFound => {
            let mut c = String::from_str("User ");
            c.append(recipient);
            c.append(" not found");
            c
        },
        WorkerOutcome::ResolutionFailed { message } => message.clone(),
        WorkerOutcome::DeliveryFailed { message } => message.clone(),
    };
    let mut line = String::from_str("Error handling messages for ");
    line.append(recipient);
    line.append(": ");
    line.append(cause.as_str());
    Some(line)
}

impl HeartbeatScheduler {
    /// Every worker has stopped; the run is over.
    pub open spec fn all_stopped(self) -> bool {
        forall|i: int| 0 <= i < self.workers@.len() ==> self.workers@[i].state is Stopped
    }

    /// Some worker stopped with an error.
    pub open spec fn any_failed(self) -> bool {
        exists|i: int| 0 <= i < self.workers@.len() && self.workers@[i].is_failed()
    }

    /// Fans out one fresh worker per recipient handle, in the order given.
    pub fn new(config: ScheduleConfig, recipients: &Vec<String>) -> (s: HeartbeatScheduler)
        ensures
            s.config == config,
            s.workers@.len() == recipients@.len(),
            forall|i: int|
                0 <= i < recipients@.len() ==> s.workers@[i].recipient == recipients@[i]
                    && s.workers@[i].state == WorkerState::NeedsResolution,
    {
        let mut workers: Vec<Worker> = Vec::new();
        let mut i: usize = 0;
        while i < recipients.len()
            invariant
                i <= recipients@.len(),
                workers@.len() == i,
                forall|j: int|
                    0 <= j < i ==> workers@[j].recipient == recipients@[j] && workers@[j].state
                        == WorkerState::NeedsResolution,
            decreases recipients@.len() - i,
        {
            let recipient = recipients[i].clone();
            workers.push(Worker { recipient, state: WorkerState::NeedsResolution });
            i = i + 1;
        }
        HeartbeatScheduler { config, workers }
    }

    /// One step of the worker at `index`, at wall-clock second `now`.
    ///
    /// Every other worker is left exactly as it was: this is the isolation
    /// the fan-out owes its recipients.
    pub fn step(&mut self, index: usize, event: WorkerEvent, now: u64) -> (action: WorkerAction)
        requires
            index < old(self).workers@.len(),
            now + old(self).config.schedule_interval <= u64::MAX,
        ensures
            final(self).config == old(self).config,
            final(self).workers@.len() == old(self).workers@.len(),
            forall|j: int|
                0 <= j < old(self).workers@.len() && j != index ==> final(self).workers@[j] == old(
                    self,
                ).workers@[j],
            final(self).workers@[index as int].recipient == old(
                self,
            ).workers@[index as int].recipient,
            worker_step_ok(
                old(self).workers@[index as int].state,
                event,
                old(self).config,
                now,
                final(self).workers@[index as int].state,
                action,
            ),
    {
        let ghost pre = *self;
        let w = self.workers.remove(index);
        let (state, action) = worker_step(w.state, event, &self.config, now);
        self.workers.insert(index, Worker { recipient: w.recipient, state });
        proof {
            assert forall|j: int|
                0 <= j < pre.workers@.len() && j != index implies self.workers@[j]
                == pre.workers@[j] by {
                if j > index {
                    assert(self.workers@[j] == pre.workers@.remove(index as int)[j - 1]);
                }
            }
        }
        action
    }

    /// Whether every worker has stopped.
    pub fn finished(&self) -> (r: bool)
        ensures
            r == self.all_stopped(),
    {
        let mut i: usize = 0;
        while i < self.workers.len()
            invariant
                i <= self.workers@.len(),
                forall|j: int| 0 <= j < i ==> self.workers@[j].state is Stopped,
            decreases self.workers@.len() - i,
        {
            if !matches!(&self.workers[i].state, WorkerState::Stopped { .. }) {
                return false;
            }
            i = i + 1;
        }
        true
    }

    /// Whether some worker stopped with an error.
    pub fn had_errors(&self) -> (r: bool)
        ensures
            r == self.any_failed(),
    {
        let mut i: usize = 0;
        while i < self.workers.len()
            invariant
                i <= self.workers@.len(),
                forall|j: int| 0 <= j < i ==> !self.workers@[j].is_failed(),
            decreases self.workers@.len() - i,
        {
            let failed = match &self.workers[i].state {
                WorkerState::Stopped { outcome } => !matches!(outcome, WorkerOutcome::Cancelled),
                _ => false,
            };
            if failed {
                return true;
            }
            i = i + 1;
        }
        false
    }

    /// The error lines of the run, one per failed worker, in worker order.
    pub fn report(&self) -> (lines: Vec<String>)
        ensures
            lines@.map_values(|s: String| s@) == report_lines(self.workers@),
    {
        let mut lines: Vec<String> = Vec::new();
        let mut i: usize = 0;
        while i < self.workers.len()
            invariant
                i <= self.workers@.len(),
                lines@.map_values(|s: String| s@) == report_lines(self.workers@.take(i as int)),
            decreases self.workers@.len() - i,
        {
            let w = &self.workers[i];
            let line = match &w.state {
                WorkerState::Stopped { outcome } => worker_error_line(w.recipient.as_str(), outcome),
                _ => None,
            };
            proof {
                assert(self.workers@.take(i + 1).drop_last() =~= self.workers@.take(i as int));
                assert(self.workers@.take(i + 1).last() == self.workers@[i as int]);
            }
            match line {
                Some(l) => {
                    lines.push(l);
                    proof {
                        assert(lines@.map_values(|s: String| s@) =~= report_lines(
                            self.workers@.take(i + 1),
                        ));
                    }
                },
                None => {
                    proof {
                        assert(lines@.map_values(|s: String| s@) =~= report_lines(
                            self.workers@.take(i + 1),
                        ));
                    }
                },
            }
            i = i + 1;
        }
        proof {
            assert(self.workers@.take(self.workers@.len() as int) =~= self.workers@);
        }
        lines
    }
}

/// Law: a run over no recipients is a no-op: it is finished at once,
/// reports no error, and — having no worker — can never request a send or
/// any other action.
pub proof fn lemma_empty_run(s: HeartbeatScheduler)
    requires
        s.workers@.len() == 0,
    ensures
        s.all_stopped(),
        !s.any_failed(),
        report_lines(s.workers@) == Seq::<Seq<char>>::empty(),
{
}

} // verus!
