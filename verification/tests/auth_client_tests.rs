use mdgreet::app::auth::{Auth, UserData};
use mdgreet::utils::client::{
    session_start_outcome, AuthMessageType, AuthStep, Authentication, ClientError, ErrorType, Request, Response,
};
use mdgreet::utils::system::SystemUser;

fn s(x: &str) -> String {
    x.to_string()
}

fn user(name: &str, real: &str) -> UserData {
    UserData { user_name: s(name), real_name: s(real), password: s("") }
}

fn msg(t: AuthMessageType) -> Response {
    Response::AuthMessage { auth_message_type: t, auth_message: s("prompt") }
}

#[test]
fn initials_of_names() {
    assert_eq!(Auth::initials("Alice Liddell"), "AL");
    assert_eq!(Auth::initials("alice"), "AL");
    assert_eq!(Auth::initials("a"), "A");
    assert_eq!(Auth::initials("  bob  "), "  ");
    assert_eq!(Auth::initials("élodie"), "É");
    assert_eq!(Auth::initials("Jean-Luc Picard Smith"), "JPS");
    assert_eq!(Auth::word_initials("x y\tz"), "xyz");
}

#[test]
fn initials_panic_detection() {
    assert!(Auth::initials_panics("a日本"));
    assert!(Auth::initials_panics("x日"));
    assert!(!Auth::initials_panics("日"));
    assert!(!Auth::initials_panics("日本 語"));
    assert!(!Auth::initials_panics("ab"));
}

#[test]
fn user_models() {
    let users = vec![user("alice", "Alice Liddell"), user("bob", "")];
    let (list, menu) = Auth::prepare_ui_models(&users).unwrap();
    assert_eq!(list[0].real_name, "Alice Liddell");
    assert_eq!(list[0].initials, "AL");
    assert_eq!(list[1].real_name, "bob");
    assert_eq!(list[1].initials, "BO");
    assert_eq!(menu[1].text, "bob");
    assert!(menu[0].enabled);
    assert!(Auth::prepare_ui_models(&vec![user("x", "a日本")]).is_none());
}

#[test]
fn converted_users_have_empty_password() {
    let r = Auth::convert_system_users(vec![SystemUser { user_name: s("u"), real_name: s("U") }]);
    assert_eq!((r[0].user_name.as_str(), r[0].real_name.as_str(), r[0].password.as_str()), ("u", "U", ""));
}

#[test]
fn auth_happy_path() {
    let (mut a, first) = Authentication::start("alice", "pw");
    assert!(matches!(first, Request::CreateSession { ref username } if username == "alice"));
    assert!(matches!(a.on_response(msg(AuthMessageType::Visible)),
        AuthStep::Send(Request::PostAuthMessageResponse { response: Some(ref r) }) if r == "alice"));
    assert!(matches!(a.on_response(msg(AuthMessageType::Info)),
        AuthStep::Send(Request::PostAuthMessageResponse { response: None })));
    assert!(matches!(a.on_response(msg(AuthMessageType::Secret)),
        AuthStep::Send(Request::PostAuthMessageResponse { response: Some(ref r) }) if r == "pw"));
    assert!(matches!(a.on_response(Response::Success), AuthStep::Done));
}

#[test]
fn auth_second_secret_fails() {
    let (mut a, _) = Authentication::start("alice", "pw");
    let _ = a.on_response(msg(AuthMessageType::Secret));
    assert!(matches!(a.on_response(msg(AuthMessageType::Error)),
        AuthStep::Send(Request::PostAuthMessageResponse { response: None })));
    assert!(matches!(a.on_response(msg(AuthMessageType::Secret)),
        AuthStep::Fail { cancel: true, error: ClientError::Auth(ref m) } if m == "Invalid username or password"));
}

#[test]
fn auth_errors() {
    let (mut a, _) = Authentication::start("u", "p");
    assert!(matches!(a.on_response(Response::Error { error_type: ErrorType::AuthError, description: s("x") }),
        AuthStep::Fail { cancel: true, error: ClientError::Auth(ref m) } if m == "Invalid username or password"));
    assert!(matches!(a.on_response(Response::Error { error_type: ErrorType::Error, description: s("boom") }),
        AuthStep::Fail { cancel: true, error: ClientError::System(ref m) } if m == "greetd error: boom"));
}

#[test]
fn start_session_outcomes() {
    assert!(session_start_outcome(Response::Success).is_ok());
    assert!(matches!(session_start_outcome(Response::Error { error_type: ErrorType::Error, description: s("no") }),
        Err(ClientError::System(ref m)) if m == "Failed to start session: no"));
    assert!(matches!(session_start_outcome(msg(AuthMessageType::Info)),
        Err(ClientError::System(ref m)) if m == "Unexpected AuthMessage when trying to start session"));
}
