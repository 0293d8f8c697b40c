//! The interactive authentication state machine.
//!
//! Authentication runs once, synchronously, before any worker starts.  The
//! machine here decides every transition; the surrounding program performs
//! the action each transition requests (prompting the operator, calling the
//! transport, persisting the session) and feeds the outcome back in as the
//! next event.  Saving the session is modelled as its own step so that a
//! failure to persist is part of the machine rather than an afterthought.
//!
//! An event that a state does not expect leaves the state unchanged and
//! requests nothing; the driving loop never produces one.

use vstd::prelude::*;

verus! {

/// A failure during the login sequence, carrying the underlying cause's text.
pub struct AuthError(pub String);

impl AuthError {
    /// The text of the underlying cause.
    pub fn message(&self) -> (r: &str)
        ensures
            r@ == self.0@,
    {
        self.0.as_str()
    }
}

/// Where the login sequence stands.
pub enum AuthState {
    /// Nothing has happened yet; the authorization check is owed.
    Start,
    /// The transport is not authorized; a phone number is owed.
    AwaitingPhone,
    /// A login code was requested; the one-time code is owed.
    AwaitingCode,
    /// The transport demanded a password, with an optional hint.
    AwaitingPassword { hint: Option<String> },
    /// Sign-in succeeded; the session must be persisted before Done.
    Persisting,
    /// Terminal success: the transport is authorized and any fresh session
    /// is persisted.
    Done,
    /// Terminal failure, with the underlying cause.
    Failed { error: AuthError },
}

/// The outcome of the last requested action, fed back into the machine.
pub enum AuthEvent {
    /// The transport reported whether it is already authorized.
    AuthorizationChecked { authorized: bool },
    /// The operator's phone number was accepted and a login code was sent.
    CodeRequested,
    /// Requesting a login code failed.
    RequestFailed { message: String },
    /// The one-time code was accepted.
    SignInAccepted,
    /// The transport demands the account password, with an optional hint.
    PasswordRequired { hint: Option<String> },
    /// The one-time code was rejected.
    SignInFailed { message: String },
    /// The password was accepted.
    PasswordAccepted,
    /// The password was rejected.
    PasswordFailed { message: String },
    /// The session was written to durable storage.
    SessionSaved,
    /// Writing the session failed.
    SaveFailed { message: String },
}

/// What the driving program must do next.
pub enum AuthAction {
    /// Ask the transport whether it is already authorized.
    CheckAuthorization,
    /// Prompt the operator for a phone number and request a login code.
    RequestPhone,
    /// Prompt the operator for the one-time code and sign in with it.
    RequestCode,
    /// Prompt the operator for the password, without echo, and check it.
    RequestPassword { hint: Option<String> },
    /// Write the session to durable storage.
    PersistSession,
    /// Nothing: the machine is in a terminal state.
    NoAction,
}

impl AuthState {
    /// The machine accepts no further event.
    pub open spec fn is_terminal(self) -> bool {
        self is Done || self is Failed
    }
}

/// The transition relation of the login sequence: from a state and the
/// outcome of the last action to the next state and the next action.
pub open spec fn spec_auth_step(state: AuthState, event: AuthEvent) -> (AuthState, AuthAction) {
    match (state, event) {
        (AuthState::Start, AuthEvent::AuthorizationChecked { authorized }) => {
            if authorized {
                (AuthState::Done, AuthAction::NoAction)
            } else {
                (AuthState::AwaitingPhone, AuthAction::RequestPhone)
            }
        },
        (AuthState::AwaitingPhone, AuthEvent::CodeRequested) => {
            (AuthState::AwaitingCode, AuthAction::RequestCode)
        },
        (AuthState::AwaitingPhone, AuthEvent::RequestFailed { message }) => {
            (AuthState::Failed { error: AuthError(message) }, AuthAction::NoAction)
        },
        (AuthState::AwaitingCode, AuthEvent::SignInAccepted) => {
            (AuthState::Persisting, AuthAction::PersistSession)
        },
        (AuthState::AwaitingCode, AuthEvent::PasswordRequired { hint }) => {
            (AuthState::AwaitingPassword { hint }, AuthAction::RequestPassword { hint })
        },
        (AuthState::AwaitingCode, AuthEvent::SignInFailed { message }) => {
            (AuthState::Failed { error: AuthError(message) }, AuthAction::NoAction)
        },
        (AuthState::AwaitingPassword { hint: _ }, AuthEvent::PasswordAccepted) => {
            (AuthState::Persisting, AuthAction::PersistSession)
        },
        (AuthState::AwaitingPassword { hint: _ }, AuthEvent::PasswordFailed { message }) => {
            (AuthState::Failed { error: AuthError(message) }, AuthAction::NoAction)
        },
        (AuthState::Persisting, AuthEvent::SessionSaved) => {
            (AuthState::Done, AuthAction::NoAction)
        },
        (AuthState::Persisting, AuthEvent::SaveFailed { message }) => {
            (AuthState::Failed { error: AuthError(message) }, AuthAction::NoAction)
        },
        (s, _) => (s, AuthAction::NoAction),
    }
}

/// The initial state, with the action that starts the sequence.
pub fn auth_start() -> (r: (AuthState, AuthAction))
    ensures
        r.0 == AuthState::Start,
        r.1 == AuthAction::CheckAuthorization,
{
    (AuthState::Start, AuthAction::CheckAuthorization)
}

/// One step of the login sequence.
pub fn auth_step(state: AuthState, event: AuthEvent) -> (r: (AuthState, AuthAction))
    ensures
        r == spec_auth_step(state, event),
{
    match (state, event) {
        (AuthState::Start, AuthEvent::AuthorizationChecked { authorized }) => {
            if authorized {
                (AuthState::Done, AuthAction::NoAction)
            } else {
                (AuthState::AwaitingPhone, AuthAction::RequestPhone)
            }
        },
        (AuthState::AwaitingPhone, AuthEvent::CodeRequested) => {
            (AuthState::AwaitingCode, AuthAction::RequestCode)
        },
        (AuthState::AwaitingPhone, AuthEvent::RequestFailed { message }) => {
            (AuthState::Failed { error: AuthError(message) }, AuthAction::NoAction)
        },
        (AuthState::AwaitingCode, AuthEvent::SignInAccepted) => {
            (AuthState::Persisting, AuthAction::PersistSession)
        },
        (AuthState::AwaitingCode, AuthEvent::PasswordRequired { hint }) => {
            let next_hint = clone_hint(&hint);
            (AuthState::AwaitingPassword { hint }, AuthAction::RequestPassword { hint: next_hint })
        },
        (AuthState::AwaitingCode, AuthEvent::SignInFailed { message }) => {
            (AuthState::Failed { error: AuthError(message) }, AuthAction::NoAction)
        },
        (AuthState::AwaitingPassword { hint: _ }, AuthEvent::PasswordAccepted) => {
            (AuthState::Persisting, AuthAction::PersistSession)
        },
        (AuthState::AwaitingPassword { hint: _ }, AuthEvent::PasswordFailed { message }) => {
            (AuthState::Failed { error: AuthError(message) }, AuthAction::NoAction)
        },
        (AuthState::Persisting, AuthEvent::SessionSaved) => {
            (AuthState::Done, AuthAction::NoAction)
        },
        (AuthState::Persisting, AuthEvent::SaveFailed { message }) => {
            (AuthState::Failed { error: AuthError(message) }, AuthAction::NoAction)
        },
        (s, _) => (s, AuthAction::NoAction),
    }
}

/// Copies an optional hint so the new state and the requested action can
/// both carry it.
fn clone_hint(hint: &Option<String>) -> (r: Option<String>)
    ensures
        r == *hint,
{
    match hint {
        Some(h) => Some(h.clone()),
        None => None,
    }
}

/// The machine run from `Start` over a whole event sequence: the state it
/// ends in, and the action each step requested, in order.
pub open spec fn auth_run(events: Seq<AuthEvent>) -> (AuthState, Seq<AuthAction>)
    decreases events.len(),
{
    if events.len() == 0 {
        (AuthState::Start, Seq::<AuthAction>::empty())
    } else {
        let prior = auth_run(events.drop_last());
        let step = spec_auth_step(prior.0, events.last());
        (step.0, prior.1.push(step.1))
    }
}

/// How many times a run asked for the session to be persisted.
pub open spec fn count_persists(actions: Seq<AuthAction>) -> int
    decreases actions.len(),
{
    if actions.len() == 0 {
        0
    } else {
        count_persists(actions.drop_last()) + (
        if actions.last() is PersistSession {
            1int
        } else {
            0int
        })
    }
}

/// Appending one action raises the persist count exactly when that action
/// is the save request.
pub proof fn lemma_count_persists_push(actions: Seq<AuthAction>, a: AuthAction)
    ensures
        count_persists(actions.push(a)) == count_persists(actions) + (
        if a is PersistSession {
            1int
        } else {
            0int
        }),
{
    assert(actions.push(a).drop_last() =~= actions);
    assert(actions.push(a).last() == a);
}

/// Law: if the transport reports itself already authorized, the sequence
/// is over on the spot: the machine is in `Done` and no prompt, sign-in or
/// save is ever requested — every action of the run is `NoAction`.
pub proof fn lemma_already_authorized(events: Seq<AuthEvent>)
    requires
        events.len() >= 1,
        events[0] == (AuthEvent::AuthorizationChecked { authorized: true }),
    ensures
        auth_run(events).0 == AuthState::Done,
        auth_run(events).1 =~= Seq::new(events.len(), |k: int| AuthAction::NoAction),
    decreases events.len(),
{
    if events.len() == 1 {
        assert(events.drop_last() =~= Seq::<AuthEvent>::empty());
    } else {
        lemma_already_authorized(events.drop_last());
    }
}

/// Law: a run persists the session at most once, and exactly once by the
/// time it stands between a successful sign-in and the save's outcome.
pub proof fn lemma_persist_at_most_once(events: Seq<AuthEvent>)
    ensures
        count_persists(auth_run(events).1) <= 1,
        auth_run(events).0 is Start || auth_run(events).0 is AwaitingPhone || auth_run(
            events,
        ).0 is AwaitingCode || auth_run(events).0 is AwaitingPassword ==> count_persists(
            auth_run(events).1,
        ) == 0,
        auth_run(events).0 is Persisting ==> count_persists(auth_run(events).1) == 1,
    decreases events.len(),
{
    if events.len() > 0 {
        lemma_persist_at_most_once(events.drop_last());
        let prior = auth_run(events.drop_last());
        let step = spec_auth_step(prior.0, events.last());
        lemma_count_persists_push(prior.1, step.1);
    }
}

/// Law: with the transport unauthorized, a valid one-time code and no
/// password demand, the sequence runs `Start` → `AwaitingPhone` →
/// `AwaitingCode` → `Persisting` → `Done`, and persists the session
/// exactly once.
pub proof fn lemma_code_only_login(events: Seq<AuthEvent>)
    requires
        events == seq![
            AuthEvent::AuthorizationChecked { authorized: false },
            AuthEvent::CodeRequested,
            AuthEvent::SignInAccepted,
            AuthEvent::SessionSaved,
        ],
    ensures
        auth_run(events.take(1)).0 == AuthState::AwaitingPhone,
        auth_run(events.take(2)).0 == AuthState::AwaitingCode,
        auth_run(events.take(3)).0 == AuthState::Persisting,
        auth_run(events).0 == AuthState::Done,
        auth_run(events).1 =~= seq![
            AuthAction::RequestPhone,
            AuthAction::RequestCode,
            AuthAction::PersistSession,
            AuthAction::NoAction,
        ],
        count_persists(auth_run(events).1) == 1,
{
    reveal_with_fuel(auth_run, 6);
    assert(events.take(1).drop_last() =~= Seq::<AuthEvent>::empty());
    assert(events.take(2).drop_last() =~= events.take(1));
    assert(events.take(3).drop_last() =~= events.take(2));
    assert(events.drop_last() =~= events.take(3));
    assert(auth_run(Seq::<AuthEvent>::empty()).0 == AuthState::Start);
    assert(auth_run(events.take(1)).0 == AuthState::AwaitingPhone);
    assert(auth_run(events.take(2)).0 == AuthState::AwaitingCode);
    assert(auth_run(events.take(3)).0 == AuthState::Persisting);
    assert(auth_run(events).0 == AuthState::Done);
    let a1 = auth_run(events.take(1)).1;
    let a2 = auth_run(events.take(2)).1;
    let a3 = auth_run(events.take(3)).1;
    lemma_count_persists_push(Seq::<AuthAction>::empty(), AuthAction::RequestPhone);
    lemma_count_persists_push(a1, AuthAction::RequestCode);
    lemma_count_persists_push(a2, AuthAction::PersistSession);
    lemma_count_persists_push(a3, AuthAction::NoAction);
}

/// Law: as the code-only run, but the transport demands the account
/// password: the machine passes through `AwaitingPassword` carrying the
/// transport's hint, requests the password prompt, and only then — after
/// the password is accepted and the session saved — reaches `Done`, again
/// persisting exactly once.
pub proof fn lemma_password_login(events: Seq<AuthEvent>, hint: Option<String>)
    requires
        events == seq![
            AuthEvent::AuthorizationChecked { authorized: false },
            AuthEvent::CodeRequested,
            AuthEvent::PasswordRequired { hint },
            AuthEvent::PasswordAccepted,
            AuthEvent::SessionSaved,
        ],
    ensures
        auth_run(events.take(1)).0 == AuthState::AwaitingPhone,
        auth_run(events.take(2)).0 == AuthState::AwaitingCode,
        auth_run(events.take(3)).0 == (AuthState::AwaitingPassword { hint }),
        auth_run(events.take(4)).0 == AuthState::Persisting,
        auth_run(events).0 == AuthState::Done,
        auth_run(events).1 =~= seq![
            AuthAction::RequestPhone,
            AuthAction::RequestCode,
            AuthAction::RequestPassword { hint },
            AuthAction::PersistSession,
            AuthAction::NoAction,
        ],
        count_persists(auth_run(events).1) == 1,
{
    reveal_with_fuel(auth_run, 7);
    assert(events.take(1).drop_last() =~= Seq::<AuthEvent>::empty());
    assert(events.take(2).drop_last() =~= events.take(1));
    assert(events.take(3).drop_last() =~= events.take(2));
    assert(events.take(4).drop_last() =~= events.take(3));
    assert(events.drop_last() =~= events.take(4));
    assert(auth_run(Seq::<AuthEvent>::empty()).0 == AuthState::Start);
    assert(auth_run(events.take(1)).0 == AuthState::AwaitingPhone);
    assert(auth_run(events.take(2)).0 == AuthState::AwaitingCode);
    assert(auth_run(events.take(3)).0 == (AuthState::AwaitingPassword { hint }));
    assert(auth_run(events.take(4)).0 == AuthState::Persisting);
    assert(auth_run(events).0 == AuthState::Done);
    let a1 = auth_run(events.take(1)).1;
    let a2 = auth_run(events.take(2)).1;
    let a3 = auth_run(events.take(3)).1;
    let a4 = auth_run(events.take(4)).1;
    lemma_count_persists_push(Seq::<AuthAction>::empty(), AuthAction::RequestPhone);
    lemma_count_persists_push(a1, AuthAction::RequestCode);
    lemma_count_persists_push(a2, AuthAction::RequestPassword { hint });
    lemma_count_persists_push(a3, AuthAction::PersistSession);
    lemma_count_persists_push(a4, AuthAction::NoAction);
}

} // verus!
