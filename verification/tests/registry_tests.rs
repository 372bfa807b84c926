//! The session registry: handshake, lifecycle, and cycling.

use shift::session_registry::{
    CycleDirection, SessionLifecycle, SessionRegistry, SessionRole,
};

#[test]
fn insert_and_look_up_a_pending_session() {
    let mut reg = SessionRegistry::new();
    reg.insert_pending(
        "ses_a".to_string(),
        "tok_a".to_string(),
        SessionRole::Session,
        Some("desk".to_string()),
    );
    assert!(reg.has_session("ses_a"));
    assert!(!reg.has_session("ses_b"));
    let s = reg.get("ses_a").unwrap();
    assert_eq!(s.token(), "tok_a");
    assert_eq!(s.role(), SessionRole::Session);
    assert_eq!(s.state(), SessionLifecycle::Pending);
    assert_eq!(s.display_name(), Some("desk"));
    let info = reg.session_info("ses_a").unwrap();
    assert_eq!(info.id, "ses_a");
    assert_eq!(info.state, SessionLifecycle::Pending);
}

#[test]
fn token_authenticates_once_and_moves_to_loading() {
    let mut reg = SessionRegistry::new();
    reg.insert_pending(
        "ses_a".to_string(),
        "tok_a".to_string(),
        SessionRole::Admin,
        None,
    );
    let id = reg.authenticate_with_token("tok_a").unwrap();
    assert_eq!(id, "ses_a");
    assert_eq!(reg.get("ses_a").unwrap().state(), SessionLifecycle::Loading);
    // the token was consumed
    assert!(reg.authenticate_with_token("tok_a").is_none());
    assert!(reg.authenticate_with_token("tok_x").is_none());
}

#[test]
fn state_changes_report_the_new_description() {
    let mut reg = SessionRegistry::new();
    reg.insert_pending(
        "ses_a".to_string(),
        "tok_a".to_string(),
        SessionRole::Session,
        None,
    );
    let info = reg
        .set_state("ses_a", SessionLifecycle::Occupied)
        .unwrap();
    assert_eq!(info.state, SessionLifecycle::Occupied);
    let info = reg.mark_consumed("ses_a").unwrap();
    assert_eq!(info.state, SessionLifecycle::Consumed);
    assert!(reg.set_state("ses_zz", SessionLifecycle::Loading).is_none());
}

#[test]
fn created_sessions_use_serial_identifiers() {
    let mut reg = SessionRegistry::new();
    let (info, id, token) = reg.create_pending(SessionRole::Session, None);
    assert_eq!(id, "ses_0");
    assert_eq!(token, "tok_0");
    assert_eq!(info.id, "ses_0");
    assert_eq!(info.state, SessionLifecycle::Pending);
    let (_, id2, token2) = reg.create_pending(SessionRole::Admin, None);
    assert_eq!(id2, "ses_1");
    assert_eq!(token2, "tok_1");
    assert_eq!(reg.authenticate_with_token("tok_0").unwrap(), "ses_0");
}

fn occupied(reg: &mut SessionRegistry, id: &str) {
    reg.insert_pending(
        id.to_string(),
        format!("tok_{id}"),
        SessionRole::Session,
        None,
    );
    reg.set_state(id, SessionLifecycle::Occupied).unwrap();
}

#[test]
fn cycling_walks_the_eligible_sessions_in_order() {
    let mut reg = SessionRegistry::new();
    occupied(&mut reg, "ses_a");
    occupied(&mut reg, "ses_b");
    occupied(&mut reg, "ses_c");
    // a pending session is not eligible
    reg.insert_pending(
        "ses_d".to_string(),
        "tok_d".to_string(),
        SessionRole::Session,
        None,
    );
    assert_eq!(
        reg.cycle_session(Some("ses_a"), CycleDirection::Forward),
        Some("ses_b".to_string())
    );
    assert_eq!(
        reg.cycle_session(Some("ses_c"), CycleDirection::Forward),
        Some("ses_a".to_string())
    );
    assert_eq!(
        reg.cycle_session(Some("ses_b"), CycleDirection::Backward),
        Some("ses_a".to_string())
    );
    assert_eq!(
        reg.cycle_session(Some("ses_a"), CycleDirection::Backward),
        Some("ses_c".to_string())
    );
    // an unknown current starts from the smallest
    assert_eq!(
        reg.cycle_session(None, CycleDirection::Forward),
        Some("ses_b".to_string())
    );
    assert_eq!(
        reg.cycle_session(None, CycleDirection::Backward),
        Some("ses_c".to_string())
    );
}

#[test]
fn cycling_with_no_eligible_session_yields_nothing() {
    let mut reg = SessionRegistry::new();
    reg.insert_pending(
        "ses_a".to_string(),
        "tok_a".to_string(),
        SessionRole::Session,
        None,
    );
    assert_eq!(reg.cycle_session(None, CycleDirection::Forward), None);
}

#[test]
fn cycling_a_single_session_stays_put() {
    let mut reg = SessionRegistry::new();
    occupied(&mut reg, "ses_only");
    assert_eq!(
        reg.cycle_session(Some("ses_only"), CycleDirection::Forward),
        Some("ses_only".to_string())
    );
    assert_eq!(
        reg.cycle_session(Some("ses_only"), CycleDirection::Backward),
        Some("ses_only".to_string())
    );
}
