use deadman_notifier::auth::{auth_start, auth_step, AuthAction, AuthError, AuthEvent, AuthState};

#[test]
fn already_authorized_needs_nothing() {
    let (state, action) = auth_start();
    assert!(matches!(state, AuthState::Start));
    assert!(matches!(action, AuthAction::CheckAuthorization));
    let (state, action) = auth_step(state, AuthEvent::AuthorizationChecked { authorized: true });
    assert!(matches!(state, AuthState::Done));
    assert!(matches!(action, AuthAction::NoAction));
    // The terminal state ignores every further event.
    let (state, action) = auth_step(state, AuthEvent::SignInAccepted);
    assert!(matches!(state, AuthState::Done));
    assert!(matches!(action, AuthAction::NoAction));
}

#[test]
fn code_only_login_persists_once() {
    let mut persists = 0;
    let (mut state, _) = auth_start();
    let events = vec![
        AuthEvent::AuthorizationChecked { authorized: false },
        AuthEvent::CodeRequested,
        AuthEvent::SignInAccepted,
        AuthEvent::SessionSaved,
    ];
    let mut seen = Vec::new();
    for event in events {
        let (next, action) = auth_step(state, event);
        if matches!(action, AuthAction::PersistSession) {
            persists += 1;
        }
        state = next;
        seen.push(match &state {
            AuthState::Start => "start",
            AuthState::AwaitingPhone => "phone",
            AuthState::AwaitingCode => "code",
            AuthState::AwaitingPassword { .. } => "password",
            AuthState::Persisting => "persisting",
            AuthState::Done => "done",
            AuthState::Failed { .. } => "failed",
        });
    }
    assert_eq!(seen, vec!["phone", "code", "persisting", "done"]);
    assert_eq!(persists, 1);
}

#[test]
fn password_login_prompts_with_hint() {
    let (state, _) = auth_start();
    let (state, action) =
        auth_step(state, AuthEvent::AuthorizationChecked { authorized: false });
    assert!(matches!(action, AuthAction::RequestPhone));
    let (state, action) = auth_step(state, AuthEvent::CodeRequested);
    assert!(matches!(action, AuthAction::RequestCode));
    let (state, action) = auth_step(
        state,
        AuthEvent::PasswordRequired { hint: Some(String::from("X")) },
    );
    assert!(matches!(state, AuthState::AwaitingPassword { .. }));
    match &action {
        AuthAction::RequestPassword { hint: Some(h) } => assert_eq!(h, "X"),
        other => panic!("expected a password prompt, got {:?}", discriminant_name(other)),
    }
    let (state, action) = auth_step(state, AuthEvent::PasswordAccepted);
    assert!(matches!(state, AuthState::Persisting));
    assert!(matches!(action, AuthAction::PersistSession));
    let (state, action) = auth_step(state, AuthEvent::SessionSaved);
    assert!(matches!(state, AuthState::Done));
    assert!(matches!(action, AuthAction::NoAction));
}

#[test]
fn rejected_code_is_terminal() {
    let (state, _) = auth_start();
    let (state, _) = auth_step(state, AuthEvent::AuthorizationChecked { authorized: false });
    let (state, _) = auth_step(state, AuthEvent::CodeRequested);
    let (state, action) = auth_step(
        state,
        AuthEvent::SignInFailed { message: String::from("invalid code") },
    );
    match &state {
        AuthState::Failed { error } => assert_eq!(error.message(), "invalid code"),
        _ => panic!("expected failure"),
    }
    assert!(matches!(action, AuthAction::NoAction));
    // Terminal: a later event changes nothing.
    let (state, action) = auth_step(state, AuthEvent::SessionSaved);
    assert!(matches!(state, AuthState::Failed { .. }));
    assert!(matches!(action, AuthAction::NoAction));
}

#[test]
fn failed_save_is_an_auth_error() {
    let (state, _) = auth_start();
    let (state, _) = auth_step(state, AuthEvent::AuthorizationChecked { authorized: false });
    let (state, _) = auth_step(state, AuthEvent::CodeRequested);
    let (state, _) = auth_step(state, AuthEvent::SignInAccepted);
    let (state, _) = auth_step(
        state,
        AuthEvent::SaveFailed { message: String::from("disk full") },
    );
    match &state {
        AuthState::Failed { error } => assert_eq!(error.message(), "disk full"),
        _ => panic!("expected failure"),
    }
}

#[test]
fn auth_error_carries_its_message() {
    let e = AuthError(String::from("transport rejected the request"));
    assert_eq!(e.message(), "transport rejected the request");
}

fn discriminant_name(action: &AuthAction) -> &'static str {
    match action {
        AuthAction::CheckAuthorization => "check",
        AuthAction::RequestPhone => "phone",
        AuthAction::RequestCode => "code",
        AuthAction::RequestPassword { .. } => "password",
        AuthAction::PersistSession => "persist",
        AuthAction::NoAction => "none",
    }
}
