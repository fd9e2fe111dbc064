use fjcpc_schedule::auth::{
    bearer_header, composite_ucode, escalated_credential, get_basic_auth, simulator_outcome,
    simulator_ucode, AuthAction, AuthError, AuthStage, CredentialResolver, SimulatorResult,
    TokenReply, UserInfo,
};

fn user() -> UserInfo {
    UserInfo {
        access_token: "at".to_string(),
        refresh_token: "rt".to_string(),
        student_id: "245810101".to_string(),
        student_phone: "138****1234".to_string(),
        student_realname: "张三".to_string(),
    }
}

#[test]
fn fixed_credential_is_base64_of_cat_cat() {
    assert_eq!(get_basic_auth(), "Basic Y2F0OmNhdA==");
}

#[test]
fn header_values() {
    assert_eq!(composite_ucode("ABC"), "HUA_TENG-ABC");
    assert_eq!(bearer_header("tok"), "Bearer tok");
}

#[test]
fn first_try_grants() {
    let (mut r, action) = CredentialResolver::start("ABC");
    match action {
        AuthAction::RequestToken { ucode, authorization } => {
            assert_eq!(ucode, "HUA_TENG-ABC");
            assert_eq!(authorization, "Basic Y2F0OmNhdA==");
        }
        _ => panic!("expected a token request"),
    }
    match r.on_token_reply(TokenReply::Granted(user())) {
        AuthAction::Finish(Ok(u)) => assert_eq!(u, user()),
        _ => panic!("expected success"),
    }
    assert_eq!(r.stage, AuthStage::Done);
}

#[test]
fn unauthorized_escalates_once() {
    let (mut r, _) = CredentialResolver::start("ABC");
    let a = r.on_token_reply(TokenReply::Refused { status: 401, body: "no".to_string() });
    assert!(matches!(a, AuthAction::RunSimulator { ref raw_ucode } if raw_ucode == "ABC"));
    let sim = SimulatorResult { basic_auth_value: Some("Basic other".to_string()), bearer_auth_value: None };
    match r.on_simulator_result(Some(sim)) {
        AuthAction::RequestToken { ucode, authorization } => {
            assert_eq!(ucode, "HUA_TENG-ABC");
            assert_eq!(authorization, "Basic other");
        }
        _ => panic!("expected a retry"),
    }
    match r.on_token_reply(TokenReply::Refused { status: 401, body: "still no".to_string() }) {
        AuthAction::Finish(Err(AuthError::Rejected { status, body })) => {
            assert_eq!(status, 401);
            assert_eq!(body, "still no");
        }
        _ => panic!("expected the second rejection to end resolution"),
    }
}

#[test]
fn empty_recovery_retries_with_fixed_credential() {
    let (mut r, _) = CredentialResolver::start("X");
    r.on_token_reply(TokenReply::Refused { status: 401, body: String::new() });
    let sim = SimulatorResult { basic_auth_value: None, bearer_auth_value: None };
    match r.on_simulator_result(Some(sim)) {
        AuthAction::RequestToken { authorization, .. } => assert_eq!(authorization, "Basic Y2F0OmNhdA=="),
        _ => panic!("expected a retry"),
    }
}

#[test]
fn other_failures_do_not_escalate() {
    let (mut r, _) = CredentialResolver::start("X");
    match r.on_token_reply(TokenReply::Refused { status: 500, body: "down".to_string() }) {
        AuthAction::Finish(Err(AuthError::Rejected { status, .. })) => assert_eq!(status, 500),
        _ => panic!("expected failure"),
    }
    let (mut r2, _) = CredentialResolver::start("X");
    match r2.on_token_reply(TokenReply::Unreachable("timeout".to_string())) {
        AuthAction::Finish(Err(AuthError::Unreachable(m))) => assert_eq!(m, "timeout"),
        _ => panic!("expected failure"),
    }
}

#[test]
fn failed_browser_session_retries_with_fixed_credential() {
    let (mut r, _) = CredentialResolver::start("X");
    r.on_token_reply(TokenReply::Refused { status: 401, body: String::new() });
    match r.on_simulator_result(None) {
        AuthAction::RequestToken { ucode, authorization } => {
            assert_eq!(ucode, "HUA_TENG-X");
            assert_eq!(authorization, "Basic Y2F0OmNhdA==");
        }
        _ => panic!("expected a retry"),
    }
    assert_eq!(r.stage, AuthStage::Escalated);
    match r.on_token_reply(TokenReply::Granted(user())) {
        AuthAction::Finish(Ok(u)) => assert_eq!(u, user()),
        _ => panic!("expected success"),
    }
}

#[test]
fn simulator_values() {
    let s = simulator_outcome(None, Some("Bearer b".to_string()));
    assert_eq!(s.basic_auth_value, Some("Basic Y2F0OmNhdA==".to_string()));
    assert_eq!(s.bearer_auth_value, Some("Bearer b".to_string()));
    assert_eq!(escalated_credential(&s), "Basic Y2F0OmNhdA==");
    let kept = simulator_outcome(Some("Basic zz".to_string()), None);
    assert_eq!(kept.basic_auth_value, Some("Basic zz".to_string()));
    assert_eq!(simulator_ucode(None, Some("T".to_string())), Some("T".to_string()));
    assert_eq!(simulator_ucode(Some("U".to_string()), Some("T".to_string())), Some("U".to_string()));
    assert_eq!(simulator_ucode(None, None), None);
}
