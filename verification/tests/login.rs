use wgg::picnic::config::Config;
use wgg::picnic::credentials::{response_action, Credentials, ResponseAction};
use wgg::picnic::error::ApiError;
use wgg::picnic::login::{login_step, start_login, LoginAction, LoginEvent, LoginState};
use wgg::picnic::models::LoginResponse;

fn answered(status: u16, auth_token: Option<&str>, second_factor: bool) -> LoginEvent {
    LoginEvent::LoginAnswered {
        status,
        status_text: format!("{status} OK"),
        body: "{}".to_string(),
        auth_token: auth_token.map(|t| t.to_string()),
        login: Ok(LoginResponse {
            user_id: "user-1".to_string(),
            second_factor_authentication_required: second_factor,
            show_second_factor_authentication_intro: false,
        }),
    }
}

#[test]
fn login_starts_with_the_hashed_password() {
    let (state, action) = start_login(&Config::default(), "a@b.nl".to_string(), "password");
    assert_eq!(state, LoginState::LoggingIn);
    match action {
        LoginAction::SendLogin(request) => {
            assert_eq!(request.key, "a@b.nl");
            assert_eq!(request.secret, "5f4dcc3b5aa765d61d8327deb882cf99");
            assert_eq!(request.device_id, None);
        }
        other => panic!("unexpected action {other:?}"),
    }
}

#[test]
fn login_without_second_factor_is_done_at_once() {
    let (state, action) = login_step(LoginState::LoggingIn, answered(200, Some("token-a"), false));
    assert_eq!(state, LoginState::Finished);
    assert_eq!(
        action,
        LoginAction::Done(Credentials { auth_token: "token-a".to_string(), user_id: "user-1".to_string() })
    );
}

#[test]
fn login_with_second_factor_takes_four_steps() {
    let (state, action) = login_step(LoginState::LoggingIn, answered(200, Some("token-a"), true));
    assert_eq!(action, LoginAction::RequestCode { auth_token: "token-a".to_string() });
    let (state, action) = login_step(state, LoginEvent::CodeRequested { success: true });
    assert_eq!(action, LoginAction::AskForCode);
    let (state, action) = login_step(state, LoginEvent::CodeGiven { code: Ok("123456".to_string()) });
    assert_eq!(action, LoginAction::VerifyCode { auth_token: "token-a".to_string(), code: "123456".to_string() });
    let (state, action) =
        login_step(state, LoginEvent::CodeVerified { success: true, auth_token: Some("token-b".to_string()) });
    assert_eq!(state, LoginState::Finished);
    assert_eq!(
        action,
        LoginAction::Done(Credentials { auth_token: "token-b".to_string(), user_id: "user-1".to_string() })
    );
}

#[test]
fn login_failures() {
    let event = LoginEvent::LoginAnswered {
        status: 401,
        status_text: "401 Unauthorized".to_string(),
        body: "nope".to_string(),
        auth_token: None,
        login: Err("bad".to_string()),
    };
    let (_, action) = login_step(LoginState::LoggingIn, event);
    assert_eq!(action, LoginAction::Failed(ApiError::LoginFailed("Status: 401 Unauthorized - Body: nope".to_string())));

    let (_, action) = login_step(LoginState::LoggingIn, answered(200, None, false));
    assert_eq!(action, LoginAction::Failed(ApiError::Other("No picnic auth token available in response".to_string())));

    let (state, _) = login_step(LoginState::LoggingIn, answered(200, Some("t"), true));
    let (_, action) = login_step(state, LoginEvent::CodeRequested { success: false });
    assert_eq!(action, LoginAction::Failed(ApiError::LoginFailed("Failed to send a 2fa request".to_string())));

    let state = LoginState::AwaitingCode { auth_token: "t".to_string(), user_id: "u".to_string() };
    let (_, action) = login_step(state, LoginEvent::CodeGiven { code: Err(ApiError::NoSecondFactorCode) });
    assert_eq!(action, LoginAction::Failed(ApiError::NoSecondFactorCode));

    let state = LoginState::Verifying { user_id: "u".to_string() };
    let (_, action) = login_step(state, LoginEvent::CodeVerified { success: false, auth_token: None });
    assert_eq!(action, LoginAction::Failed(ApiError::LoginFailed("Failed to verify a 2fa code".to_string())));
}

#[test]
fn answers_renew_or_refuse_credentials() {
    assert_eq!(response_action(200, Some("t".to_string())), ResponseAction::KeepToken("t".to_string()));
    assert_eq!(response_action(200, None), ResponseAction::Nothing);
    assert_eq!(response_action(401, Some("t".to_string())), ResponseAction::Unauthorised);
    assert_eq!(response_action(500, Some("t".to_string())), ResponseAction::Nothing);
}
