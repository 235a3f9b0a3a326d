use vstd::prelude::*;

use crate::picnic::config::Config;
use crate::picnic::credentials::{default_client_id, hex_lower, login_request, md5_digest, Credentials};
use crate::picnic::error::ApiError;
use crate::picnic::models::{LoginRequest, LoginResponse};

verus! {

// ** Logging in **
//
// Logging in to Picnic takes one request, or four steps when Picnic asks for a second factor: the login,
// a request to send a code, the code itself, and its verification. The decisions between the steps are
// made here; the caller sends the requests and hands back what came of them.

/// Where a login stands.
#[derive(Debug, PartialEq, Eq)]
pub enum LoginState {
    /// The login request was sent.
    LoggingIn,
    /// A second factor code was asked to be sent, with the token of the login.
    SendingCode { auth_token: String, user_id: String },
    /// The user was asked for the code.
    AwaitingCode { auth_token: String, user_id: String },
    /// The code was sent for verification.
    Verifying { user_id: String },
    /// The login is over.
    Finished,
}

/// What came of the last step.
#[derive(Debug, PartialEq, Eq)]
pub enum LoginEvent {
    /// The answer to the login request: its status code and text, its body, the `x-picnic-auth` header
    /// and the body read as a login response (or why it does not read as one).
    LoginAnswered {
        status: u16,
        status_text: String,
        body: String,
        auth_token: Option<String>,
        login: Result<LoginResponse, String>,
    },
    /// Whether asking Picnic to send a code succeeded.
    CodeRequested { success: bool },
    /// The code the user gave, or why there is none.
    CodeGiven { code: Result<String, ApiError> },
    /// Whether the verification of the code succeeded, and the `x-picnic-auth` header of its answer.
    CodeVerified { success: bool, auth_token: Option<String> },
}

/// What the caller does next.
#[derive(Debug, PartialEq, Eq)]
pub enum LoginAction {
    /// Send the login request.
    SendLogin(LoginRequest),
    /// Ask Picnic to send a second factor code, with this token.
    RequestCode { auth_token: String },
    /// Ask the user for the code.
    AskForCode,
    /// Send the code for verification, with this token.
    VerifyCode { auth_token: String, code: String },
    /// The login succeeded with these credentials.
    Done(Credentials),
    /// The login failed.
    Failed(ApiError),
}

/// The message of a missing auth token.
pub open spec fn no_token_message() -> Seq<char> {
    "No picnic auth token available in response"@
}

/// The message of a rejected login.
pub open spec fn rejected_message(status_text: Seq<char>, body: Seq<char>) -> Seq<char> {
    "Status: "@ + status_text + " - Body: "@ + body
}

/// Whether a status code is a client error.
pub open spec fn is_client_error(status: u16) -> bool {
    400 <= status < 500
}

/// Whether a step ends the login with [ApiError::LoginFailed] and this message.
pub open spec fn ends_in_login_failure(res: (LoginState, LoginAction), message: Seq<char>) -> bool {
    &&& res.0 == LoginState::Finished
    &&& (res.1 matches LoginAction::Failed(ApiError::LoginFailed(m)) && m@ == message)
}

/// Whether a step ends the login with [ApiError::Other] and this message.
pub open spec fn ends_in_other_failure(res: (LoginState, LoginAction), message: Seq<char>) -> bool {
    &&& res.0 == LoginState::Finished
    &&& (res.1 matches LoginAction::Failed(ApiError::Other(m)) && m@ == message)
}

/// Start logging in as `email`: send the login request of [login_request], whose secret is the hex MD5
/// digest of the password.
pub fn start_login(config: &Config, email: String, password: &str) -> (res: (LoginState, LoginAction))
    ensures
        res.0 == LoginState::LoggingIn,
        res.1 matches LoginAction::SendLogin(r) && {
            &&& r.key == email
            &&& r.secret@ == hex_lower(md5_digest(password@))
            &&& r.client_id@ == (match config.spec_details() {
                Some(d) => d.client_id@,
                None => default_client_id(),
            })
            &&& r.client_version == (match config.spec_details() {
                Some(d) => Some(d.client_version),
                None => None,
            })
            &&& r.device_id is None
        },
{
    let request = login_request(config, email, password);
    (LoginState::LoggingIn, LoginAction::SendLogin(request))
}

/// Decide the next step of a login from where it stands and what came of the last step.
///
/// A login answer with a client error status fails with the status and the body; one without a token, or
/// whose body is no login response, fails too. When Picnic asks for a second factor, a code is requested
/// with the login's token; else the login is done. A failed code request or verification fails the login;
/// a code the user could not give fails it with that error; a verified code without a token fails it.
/// Otherwise the verification's token and the login's user id are the credentials. An event that does not
/// fit the state fails the login.
pub fn login_step(state: LoginState, event: LoginEvent) -> (res: (LoginState, LoginAction))
    ensures
        match (state, event) {
            (LoginState::LoggingIn, LoginEvent::LoginAnswered { status, status_text, body, auth_token, login }) => {
                if is_client_error(status) {
                    ends_in_login_failure(res, rejected_message(status_text@, body@))
                } else {
                    match (auth_token, login) {
                        (None, _) => ends_in_other_failure(res, no_token_message()),
                        (Some(_), Err(e)) => res == (LoginState::Finished, LoginAction::Failed(ApiError::Reqwest(e))),
                        (Some(t), Ok(l)) => if l.second_factor_authentication_required {
                            res == (
                                LoginState::SendingCode { auth_token: t, user_id: l.user_id },
                                LoginAction::RequestCode { auth_token: t },
                            )
                        } else {
                            res == (
                                LoginState::Finished,
                                LoginAction::Done(Credentials { auth_token: t, user_id: l.user_id }),
                            )
                        },
                    }
                }
            },
            (LoginState::SendingCode { auth_token, user_id }, LoginEvent::CodeRequested { success }) => {
                if success {
                    res == (LoginState::AwaitingCode { auth_token, user_id }, LoginAction::AskForCode)
                } else {
                    ends_in_login_failure(res, "Failed to send a 2fa request"@)
                }
            },
            (LoginState::AwaitingCode { auth_token, user_id }, LoginEvent::CodeGiven { code }) => match code {
                Ok(c) => res == (LoginState::Verifying { user_id }, LoginAction::VerifyCode { auth_token, code: c }),
                Err(e) => res == (LoginState::Finished, LoginAction::Failed(e)),
            },
            (LoginState::Verifying { user_id }, LoginEvent::CodeVerified { success, auth_token }) => {
                if !success {
                    ends_in_login_failure(res, "Failed to verify a 2fa code"@)
                } else {
                    match auth_token {
                        Some(t) => res == (
                            LoginState::Finished,
                            LoginAction::Done(Credentials { auth_token: t, user_id }),
                        ),
                        None => ends_in_other_failure(res, no_token_message()),
                    }
                }
            },
            _ => ends_in_other_failure(res, "Unexpected step of the Picnic login"@),
        },
{
    match (state, event) {
        (LoginState::LoggingIn, LoginEvent::LoginAnswered { status, status_text, body, auth_token, login }) => {
            if 400 <= status && status < 500 {
                let mut m = String::from_str("Status: ");
                m.append(status_text.as_str());
                m.append(" - Body: ");
                m.append(body.as_str());
                return (LoginState::Finished, LoginAction::Failed(ApiError::LoginFailed(m)));
            }
            match (auth_token, login) {
                (None, _) => (
                    LoginState::Finished,
                    LoginAction::Failed(ApiError::Other(String::from_str("No picnic auth token available in response"))),
                ),
                (Some(_), Err(e)) => (LoginState::Finished, LoginAction::Failed(ApiError::Reqwest(e))),
                (Some(t), Ok(l)) => if l.second_factor_authentication_required {
                    let token = t.clone();
                    (
                        LoginState::SendingCode { auth_token: t, user_id: l.user_id },
                        LoginAction::RequestCode { auth_token: token },
                    )
                } else {
                    (LoginState::Finished, LoginAction::Done(Credentials { auth_token: t, user_id: l.user_id }))
                },
            }
        },
        (LoginState::SendingCode { auth_token, user_id }, LoginEvent::CodeRequested { success }) => {
            if success {
                (LoginState::AwaitingCode { auth_token, user_id }, LoginAction::AskForCode)
            } else {
                (
                    LoginState::Finished,
                    LoginAction::Failed(ApiError::LoginFailed(String::from_str("Failed to send a 2fa request"))),
                )
            }
        },
        (LoginState::AwaitingCode { auth_token, user_id }, LoginEvent::CodeGiven { code }) => match code {
            Ok(c) => (LoginState::Verifying { user_id }, LoginAction::VerifyCode { auth_token, code: c }),
            Err(e) => (LoginState::Finished, LoginAction::Failed(e)),
        },
        (LoginState::Verifying { user_id }, LoginEvent::CodeVerified { success, auth_token }) => {
            if !success {
                (
                    LoginState::Finished,
                    LoginAction::Failed(ApiError::LoginFailed(String::from_str("Failed to verify a 2fa code"))),
                )
            } else {
                match auth_token {
                    Some(t) => (LoginState::Finished, LoginAction::Done(Credentials { auth_token: t, user_id })),
                    None => (
                        LoginState::Finished,
                        LoginAction::Failed(
                            ApiError::Other(String::from_str("No picnic auth token available in response")),
                        ),
                    ),
                }
            }
        },
        _ => (
            LoginState::Finished,
            LoginAction::Failed(ApiError::Other(String::from_str("Unexpected step of the Picnic login"))),
        ),
    }
}

} // verus!
