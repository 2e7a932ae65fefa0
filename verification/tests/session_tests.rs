use chat_relay::session::ChatSession;
use chat_relay::session::InboundFrame;
use chat_relay::session::SessionAction;
use chat_relay::session::SessionState;

#[test]
fn new_session_is_connecting() {
    let session = ChatSession::new(7, 3, 70);
    assert_eq!(session.user_id, 7);
    assert_eq!(session.room_id, 3);
    assert_eq!(session.conn_id, 70);
    assert_eq!(session.state, SessionState::Connecting);
}

#[test]
fn registration_emits_login_join_announce_in_order() {
    let mut session = ChatSession::new(7, 3, 70);
    let actions = session.started();
    assert_eq!(session.state, SessionState::Active);
    assert_eq!(actions.len(), 3);
    assert!(matches!(&actions[0], SessionAction::Login(m) if m.user_id == 7));
    assert!(matches!(&actions[1], SessionAction::Join(j) if j.room_id == 3 && j.conn_id == 70));
    match &actions[2] {
        SessionAction::Broadcast(m) => {
            assert_eq!(m.room_id, 3);
            assert_eq!(m.user_id, 7);
            assert_eq!(m.message, "User 7 joined room 3 and is online");
        },
        _ => panic!("expected a broadcast"),
    }
}

#[test]
fn text_frame_emits_activity_then_broadcast() {
    let mut session = ChatSession::new(7, 3, 70);
    session.started();
    let actions = session.handle_frame(InboundFrame::Text("hi".to_string()));
    assert_eq!(actions.len(), 2);
    assert!(matches!(&actions[0], SessionAction::Activity(m) if m.user_id == 7));
    match &actions[1] {
        SessionAction::Broadcast(m) => {
            assert_eq!(m.room_id, 3);
            assert_eq!(m.user_id, 7);
            assert_eq!(m.message, "User 7: hi");
        },
        _ => panic!("expected a broadcast"),
    }
}

#[test]
fn non_text_frames_are_ignored() {
    let mut session = ChatSession::new(7, 3, 70);
    session.started();
    let actions = session.handle_frame(InboundFrame::Other);
    assert_eq!(actions.len(), 0);
}

#[test]
fn frames_before_registration_are_ignored() {
    let session = ChatSession::new(7, 3, 70);
    let actions = session.handle_frame(InboundFrame::Text("early".to_string()));
    assert_eq!(actions.len(), 0);
}

#[test]
fn closure_emits_leave_then_logout_exactly_once() {
    let mut session = ChatSession::new(7, 3, 70);
    session.started();
    let actions = session.stopping();
    assert_eq!(session.state, SessionState::Closed);
    assert_eq!(actions.len(), 2);
    assert!(matches!(&actions[0], SessionAction::Leave(l) if l.room_id == 3 && l.conn_id == 70));
    assert!(matches!(&actions[1], SessionAction::Logout(m) if m.user_id == 7));
    let again = session.stopping();
    assert_eq!(again.len(), 0);
    assert_eq!(session.state, SessionState::Closed);
}

#[test]
fn closed_session_processes_no_frames() {
    let mut session = ChatSession::new(7, 3, 70);
    session.started();
    session.stopping();
    let actions = session.handle_frame(InboundFrame::Text("late".to_string()));
    assert_eq!(actions.len(), 0);
}
