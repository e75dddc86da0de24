use session_auth::auth::AuthState;
use session_auth::session::SessionData;
use session_auth::user::User;

#[test]
fn user_id_round_trip() {
    let u = User::new(7);
    assert_eq!(u.get_id(), 7);
}

#[test]
fn user_password_hash_is_empty() {
    let u = User::new(3);
    assert!(u.get_password_hash().is_empty());
}

#[test]
fn default_user_has_id_zero() {
    let u: User = Default::default();
    assert_eq!(u.get_id(), 0);
}

#[test]
fn fresh_session_is_empty() {
    let s = SessionData::new();
    assert_eq!(s.get(&"test".to_string()), None);
    assert!(s.entries().is_empty());
}

#[test]
fn session_insert_then_get() {
    let mut s = SessionData::new();
    s.insert("test".to_string(), 42);
    assert_eq!(s.get(&"test".to_string()), Some(42));
    assert_eq!(s.get(&"other".to_string()), None);
}

#[test]
fn session_insert_overwrites() {
    let mut s = SessionData::new();
    s.insert("k".to_string(), 1);
    s.insert("k".to_string(), 2);
    assert_eq!(s.get(&"k".to_string()), Some(2));
    assert_eq!(s.entries().len(), 1);
}

#[test]
fn session_keeps_other_keys() {
    let mut s = SessionData::new();
    s.insert("a".to_string(), 1);
    s.insert("b".to_string(), 2);
    s.insert("a".to_string(), 3);
    assert_eq!(s.get(&"a".to_string()), Some(3));
    assert_eq!(s.get(&"b".to_string()), Some(2));
    assert_eq!(s.entries().len(), 2);
}

#[test]
fn fresh_auth_has_no_user() {
    let a = AuthState::new();
    assert!(a.current_user().is_none());
}

#[test]
fn login_sets_current_user() {
    let mut a = AuthState::new();
    a.login(&User::new(5));
    assert_eq!(a.current_user().map(|u| u.get_id()), Some(5));
}

#[test]
fn logout_clears_current_user() {
    let mut a = AuthState::new();
    a.login(&User::new(5));
    a.logout();
    assert!(a.current_user().is_none());
}
