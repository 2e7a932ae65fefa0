use chat_relay::presence::PresenceStatus;
use chat_relay::relay::RelaySupervisor;
use chat_relay::session::InboundFrame;

#[test]
fn user_joins_chats_and_disconnects() {
    // User 7 joins room 3: the tracker records (7, online) and the join
    // announcement fans out.
    let mut relay = RelaySupervisor::new();
    let (mut observer, _) = relay.connect(9, 3, 90, 900);
    let (mut session, out) = relay.connect(7, 3, 70, 1000);
    assert_eq!(relay.presence.presence(7).status, PresenceStatus::Online);
    assert_eq!(out.deliveries.len(), 2);
    assert_eq!(out.deliveries[0].conn_id, 90);
    assert_eq!(out.deliveries[1].conn_id, 70);
    assert_eq!(out.deliveries[0].text, "User 7 joined room 3 and is online");
    assert_eq!(out.updates.len(), 1);
    assert_eq!(out.updates[0].user_id, 7);
    assert_eq!(out.updates[0].status, PresenceStatus::Online);

    // User 7 sends "hi": every other current member of room 3 receives the
    // literal `User 7: hi`, and user 7's last activity advances.
    let out = relay.handle_frame(&session, InboundFrame::Text("hi".to_string()), 1005);
    assert!(out.deliveries.iter().any(|d| d.conn_id == 90 && d.text == "User 7: hi"));
    assert_eq!(relay.presence.presence(7).last_seen, 1005);

    // User 7 disconnects: room 3 no longer holds its connection and the
    // tracker records (7, offline).
    relay.disconnect(&mut session, 1010);
    assert!(!relay.server.is_member(3, 70));
    assert!(relay.server.is_member(3, 90));
    assert_eq!(relay.presence.presence(7).status, PresenceStatus::Offline);

    relay.disconnect(&mut observer, 1020);
}

#[test]
fn two_users_chat_in_one_room() {
    // Users 1 and 2 join room 5; user 1 sends "hello" — user 2 receives
    // `User 1: hello`. The chosen policy, matching the fan-out treating
    // every member alike, is that user 1 receives its own echo as well.
    let mut relay = RelaySupervisor::new();
    let (session1, _) = relay.connect(1, 5, 10, 1000);
    let (_session2, out) = relay.connect(2, 5, 20, 1001);
    // User 1, already present, saw user 2's announcement.
    assert!(
        out.deliveries
            .iter()
            .any(|d| d.conn_id == 10 && d.text == "User 2 joined room 5 and is online")
    );

    let out = relay.handle_frame(&session1, InboundFrame::Text("hello".to_string()), 1002);
    assert_eq!(out.deliveries.len(), 2);
    assert!(out.deliveries.iter().any(|d| d.conn_id == 20 && d.text == "User 1: hello"));
    assert!(out.deliveries.iter().any(|d| d.conn_id == 10 && d.text == "User 1: hello"));
}

#[test]
fn broadcast_to_memberless_room_delivers_nothing() {
    // Room 99 has no members: the broadcast succeeds with zero deliveries.
    let mut relay = RelaySupervisor::new();
    let (mut session, _) = relay.connect(4, 99, 40, 1000);
    relay.disconnect(&mut session, 1001);
    let out = relay.handle_frame(&session, InboundFrame::Text("anyone?".to_string()), 1002);
    assert_eq!(out.deliveries.len(), 0);

    let deliveries = relay.server.broadcast_message(&chat_relay::registry::ClientMessage {
        room_id: 99,
        message: "anyone?".to_string(),
        user_id: 4,
    });
    assert_eq!(deliveries.len(), 0);
}

#[test]
fn idle_sweep_through_the_relay() {
    let mut relay = RelaySupervisor::new();
    let (_s1, _) = relay.connect(1, 5, 10, 1000);
    let (_s2, _) = relay.connect(2, 5, 20, 1100);
    let updates = relay.sweep(1150);
    assert_eq!(updates.len(), 1);
    assert_eq!(updates[0].user_id, 1);
    assert_eq!(updates[0].status, PresenceStatus::Away);
    assert_eq!(relay.presence.presence(1).status, PresenceStatus::Away);
    assert_eq!(relay.presence.presence(2).status, PresenceStatus::Online);
    // The rooms are untouched by a sweep.
    assert!(relay.server.is_member(5, 10));
    assert!(relay.server.is_member(5, 20));
}
