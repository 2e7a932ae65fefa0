//! The per-connection session: a small state machine binding one
//! (user, room) pair and one connection handle for the life of a connection,
//! translating the connection's lifecycle and inbound frames into registry
//! and presence calls.
//!
//! The session itself owns no shared state; each event yields the list of
//! actions its owner must apply, in order. Registration goes login, join,
//! then the join announcement; a text frame goes presence refresh, then
//! broadcast — so the refresh always precedes the message becoming visible;
//! closure goes leave, then logout, and is emitted exactly once however the
//! closure was triggered.

use crate::presence::UserActivity;
use crate::presence::UserLogin;
use crate::presence::UserLogout;
use crate::registry::ClientMessage;
use crate::registry::JoinRoom;
use crate::registry::LeaveRoom;
use crate::text;
use vstd::prelude::*;

verus! {

/// The lifecycle of a session: created, registered, gone. `Closed` is
/// terminal — a closed session processes no further events.
#[derive(Clone, Copy, PartialEq, Eq, Structural, Debug)]
pub enum SessionState {
    Connecting,
    Active,
    Closed,
}

/// An inbound transport frame as the session sees it: a text payload, or
/// anything else (binary, ping/pong, control), which the chat protocol
/// ignores.
pub enum InboundFrame {
    Text(String),
    Other,
}

/// One registry or presence call the session asks its owner to make on its
/// behalf.
pub enum SessionAction {
    Login(UserLogin),
    Activity(UserActivity),
    Logout(UserLogout),
    Join(JoinRoom),
    Leave(LeaveRoom),
    Broadcast(ClientMessage),
}

/// One live connection's session. The (user, room, connection) triple is
/// immutable for the life of the connection; only the state advances.
pub struct ChatSession {
    pub user_id: i32,
    pub room_id: i32,
    pub conn_id: u64,
    pub state: SessionState,
}

impl ChatSession {
    /// A fresh session for an accepted connection, not yet registered.
    pub fn new(user_id: i32, room_id: i32, conn_id: u64) -> (s: Self)
        ensures
            s.user_id == user_id,
            s.room_id == room_id,
            s.conn_id == conn_id,
            s.state == SessionState::Connecting,
    {
        ChatSession { user_id, room_id, conn_id, state: SessionState::Connecting }
    }

    /// Registration on connect: the session becomes active and asks its
    /// owner to mark the user online, join the room, and then broadcast the
    /// join announcement into it — in that order, so presence and
    /// membership are in place before the announcement fans out (and the
    /// joiner itself receives it).
    pub fn started(&mut self) -> (actions: Vec<SessionAction>)
        requires
            old(self).state == SessionState::Connecting,
        ensures
            final(self).user_id == old(self).user_id,
            final(self).room_id == old(self).room_id,
            final(self).conn_id == old(self).conn_id,
            final(self).state == SessionState::Active,
            actions@.len() == 3,
            actions@[0] == SessionAction::Login(UserLogin { user_id: old(self).user_id }),
            actions@[1] == SessionAction::Join(
                JoinRoom { room_id: old(self).room_id, conn_id: old(self).conn_id },
            ),
            actions@[2] matches SessionAction::Broadcast(m) && m.room_id == old(self).room_id
                && m.user_id == old(self).user_id && m.message@ == text::join_line_text(
                old(self).user_id as int,
                old(self).room_id as int,
            ),
    {
        self.state = SessionState::Active;
        let announcement = text::join_line(self.user_id, self.room_id);
        let mut actions: Vec<SessionAction> = Vec::new();
        actions.push(SessionAction::Login(UserLogin { user_id: self.user_id }));
        actions.push(
            SessionAction::Join(JoinRoom { room_id: self.room_id, conn_id: self.conn_id }),
        );
        actions.push(
            SessionAction::Broadcast(
                ClientMessage {
                    room_id: self.room_id,
                    message: announcement,
                    user_id: self.user_id,
                },
            ),
        );
        actions
    }

    /// One inbound frame. A text frame on an active session asks the owner
    /// to refresh the user's presence and then broadcast
    /// `User <user_id>: <text>` — in that order. Any other frame, and any
    /// frame outside the active state, is ignored: not an error, simply no
    /// actions.
    pub fn handle_frame(&self, frame: InboundFrame) -> (actions: Vec<SessionAction>)
        ensures
            match frame {
                InboundFrame::Text(t) => if self.state == SessionState::Active {
                    &&& actions@.len() == 2
                    &&& actions@[0] == SessionAction::Activity(
                        UserActivity { user_id: self.user_id },
                    )
                    &&& actions@[1] matches SessionAction::Broadcast(m) && m.room_id
                        == self.room_id && m.user_id == self.user_id && m.message@
                        == text::chat_line_text(self.user_id as int, t@)
                } else {
                    actions@.len() == 0
                },
                InboundFrame::Other => actions@.len() == 0,
            },
    {
        match frame {
            InboundFrame::Text(t) => {
                if self.state == SessionState::Active {
                    let wire = text::chat_line(self.user_id, t.as_str());
                    let mut actions: Vec<SessionAction> = Vec::new();
                    actions.push(
                        SessionAction::Activity(UserActivity { user_id: self.user_id }),
                    );
                    actions.push(
                        SessionAction::Broadcast(
                            ClientMessage {
                                room_id: self.room_id,
                                message: wire,
                                user_id: self.user_id,
                            },
                        ),
                    );
                    actions
                } else {
                    Vec::new()
                }
            },
            InboundFrame::Other => Vec::new(),
        }
    }

    /// Teardown on transport closure — peer close, protocol error, network
    /// reset or forced shutdown alike. The session becomes closed and, the
    /// first time only, asks its owner to leave the room and then mark the
    /// user offline, in that order; a repeated closure yields nothing, so
    /// the leave/logout pair is emitted exactly once.
    pub fn stopping(&mut self) -> (actions: Vec<SessionAction>)
        ensures
            final(self).user_id == old(self).user_id,
            final(self).room_id == old(self).room_id,
            final(self).conn_id == old(self).conn_id,
            final(self).state == SessionState::Closed,
            old(self).state != SessionState::Closed ==> {
                &&& actions@.len() == 2
                &&& actions@[0] == SessionAction::Leave(
                    LeaveRoom { room_id: old(self).room_id, conn_id: old(self).conn_id },
                )
                &&& actions@[1] == SessionAction::Logout(
                    UserLogout { user_id: old(self).user_id },
                )
            },
            old(self).state == SessionState::Closed ==> actions@.len() == 0,
    {
        if self.state == SessionState::Closed {
            return Vec::new();
        }
        self.state = SessionState::Closed;
        let mut actions: Vec<SessionAction> = Vec::new();
        actions.push(
            SessionAction::Leave(LeaveRoom { room_id: self.room_id, conn_id: self.conn_id }),
        );
        actions.push(SessionAction::Logout(UserLogout { user_id: self.user_id }));
        actions
    }
}

} // verus!
