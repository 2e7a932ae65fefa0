use chat_relay::registry::ChatServer;
use chat_relay::registry::ClientMessage;

fn message(room_id: i32, user_id: i32, text: &str) -> ClientMessage {
    ClientMessage { room_id, message: text.to_string(), user_id }
}

#[test]
fn join_creates_room_and_adds_member() {
    let mut server = ChatServer::new();
    server.join_room(3, 70);
    assert!(server.is_member(3, 70));
    assert_eq!(server.member_count(3), 1);
}

#[test]
fn join_is_idempotent() {
    let mut server = ChatServer::new();
    server.join_room(3, 70);
    server.join_room(3, 70);
    server.join_room(3, 70);
    assert_eq!(server.member_count(3), 1);
    assert!(server.is_member(3, 70));
}

#[test]
fn leave_removes_member() {
    let mut server = ChatServer::new();
    server.join_room(3, 70);
    server.join_room(3, 90);
    server.leave_room(3, 70);
    assert!(!server.is_member(3, 70));
    assert!(server.is_member(3, 90));
    assert_eq!(server.member_count(3), 1);
}

#[test]
fn duplicate_leave_is_tolerated() {
    let mut server = ChatServer::new();
    server.join_room(3, 70);
    server.leave_room(3, 70);
    server.leave_room(3, 70);
    server.leave_room(8, 70);
    assert_eq!(server.member_count(3), 0);
}

#[test]
fn rooms_are_independent() {
    let mut server = ChatServer::new();
    server.join_room(3, 70);
    server.join_room(5, 10);
    server.leave_room(3, 70);
    assert!(server.is_member(5, 10));
    assert!(!server.is_member(3, 70));
}

#[test]
fn broadcast_reaches_every_member_and_no_one_else() {
    let mut server = ChatServer::new();
    server.join_room(3, 70);
    server.join_room(3, 90);
    server.join_room(5, 10);
    let deliveries = server.broadcast_message(&message(3, 7, "hi all"));
    assert_eq!(deliveries.len(), 2);
    assert_eq!(deliveries[0].conn_id, 70);
    assert_eq!(deliveries[1].conn_id, 90);
    assert_eq!(deliveries[0].text, "hi all");
    assert_eq!(deliveries[1].text, "hi all");
}

#[test]
fn broadcast_includes_the_sender_connection() {
    // The fan-out treats every member alike: a sender joined to the room
    // receives its own message back.
    let mut server = ChatServer::new();
    server.join_room(5, 10);
    server.join_room(5, 20);
    let deliveries = server.broadcast_message(&message(5, 1, "hello"));
    assert_eq!(deliveries.len(), 2);
    assert!(deliveries.iter().any(|d| d.conn_id == 10));
    assert!(deliveries.iter().any(|d| d.conn_id == 20));
}

#[test]
fn broadcast_to_empty_room_is_a_no_op() {
    let server = ChatServer::new();
    let deliveries = server.broadcast_message(&message(99, 1, "anyone?"));
    assert_eq!(deliveries.len(), 0);
}

#[test]
fn broadcast_to_emptied_room_is_a_no_op() {
    let mut server = ChatServer::new();
    server.join_room(99, 70);
    server.leave_room(99, 70);
    let deliveries = server.broadcast_message(&message(99, 1, "anyone?"));
    assert_eq!(deliveries.len(), 0);
}
