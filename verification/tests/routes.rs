use session_auth::auth::AuthState;
use session_auth::routes;
use session_auth::session::SessionData;

#[test]
fn stream_route_answers_done() {
    assert_eq!(routes::route_streaming_example(), "done");
}

#[test]
fn login_route_logs_in_the_fixed_user() {
    let mut auth = AuthState::new();
    let body = routes::route_streaming_login(&mut auth);
    assert_eq!(body, "logged in");
    let user = auth.current_user().expect("login must set a user");
    assert_eq!(user.get_id(), routes::LOGIN_USER_ID);
}

#[test]
fn logout_route_clears_the_user() {
    let mut auth = AuthState::new();
    routes::route_streaming_login(&mut auth);
    let body = routes::route_logout(&mut auth);
    assert_eq!(body, "logged out");
    assert!(auth.current_user().is_none());
}

#[test]
fn session_route_binds_the_test_key() {
    let mut session = SessionData::new();
    let body = routes::route_session(&mut session);
    assert_eq!(body, "got session");
    assert_eq!(session.get(&"test".to_string()), Some(42));
}

#[test]
fn session_route_keeps_earlier_keys() {
    let mut session = SessionData::new();
    session.insert("seen".to_string(), 1);
    routes::route_session(&mut session);
    assert_eq!(session.get(&"seen".to_string()), Some(1));
    assert_eq!(session.get(&"test".to_string()), Some(42));
}
