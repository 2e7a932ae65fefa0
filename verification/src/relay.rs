//! The relay supervisor: owns the one room registry and the one presence
//! tracker of the process, wires a fresh session to them for each accepted
//! connection, and interprets the actions sessions hand back.
//!
//! Each method returns what the outside world must then do: delivery
//! attempts to push down sockets, and persistence commands to write through
//! the collaborator. A failed delivery or a failed write is the caller's to
//! log; nothing here can fail, and nothing is rolled back.

use crate::presence::activity_step;
use crate::presence::login_step;
use crate::presence::logout_step;
use crate::presence::sweep_step;
use crate::presence::sweep_updates;
use crate::presence::update_for;
use crate::presence::PresenceActor;
use crate::presence::PresenceStatus;
use crate::presence::StatusUpdate;
use crate::registry::ChatServer;
use crate::registry::Delivery;
use crate::session::ChatSession;
use crate::session::InboundFrame;
use crate::session::SessionAction;
use crate::session::SessionState;
use crate::text;
use vstd::prelude::*;

verus! {

/// What one step of the relay asks the outside world to do: push these
/// texts to these connections, and write these presence rows.
pub struct StepOutput {
    pub deliveries: Vec<Delivery>,
    pub updates: Vec<StatusUpdate>,
}

/// The process-wide relay: one room registry, one presence tracker.
pub struct RelaySupervisor {
    pub server: ChatServer,
    pub presence: PresenceActor,
}

impl RelaySupervisor {
    /// Well-formed: both owned components are.
    pub open spec fn wf(self) -> bool {
        self.server.wf() && self.presence.wf()
    }

    /// A relay with no rooms and every user offline.
    pub fn new() -> (s: Self)
        ensures
            s.wf(),
            forall|r: i32| !s.server.has_room(r),
            forall|r: i32| s.server.member_seq(r) == Seq::<u64>::empty(),
            forall|u: i32| s.presence.presence_of(u) == crate::presence::offline_presence(),
    {
        RelaySupervisor { server: ChatServer::new(), presence: PresenceActor::new() }
    }

    /// Interprets one session action at time `now`: a presence event goes to
    /// the tracker and yields its persistence command, a membership event
    /// goes to the registry, and a broadcast fans out to the room's current
    /// members.
    pub fn apply(&mut self, action: SessionAction, now: u64) -> (out: StepOutput)
        requires
            old(self).wf(),
        ensures
            final(self).wf(),
            match action {
                SessionAction::Login(m) => {
                    &&& final(self).server == old(self).server
                    &&& final(self).presence.presence_of(m.user_id) == login_step(
                        old(self).presence.presence_of(m.user_id),
                        now,
                    )
                    &&& forall|u: i32|
                        u != m.user_id ==> final(self).presence.presence_of(u) == old(
                            self,
                        ).presence.presence_of(u)
                    &&& out.deliveries@.len() == 0
                    &&& out.updates@ == seq![
                        update_for(m.user_id, final(self).presence.presence_of(m.user_id)),
                    ]
                },
                SessionAction::Activity(m) => {
                    &&& final(self).server == old(self).server
                    &&& final(self).presence.presence_of(m.user_id) == activity_step(
                        old(self).presence.presence_of(m.user_id),
                        now,
                    )
                    &&& forall|u: i32|
                        u != m.user_id ==> final(self).presence.presence_of(u) == old(
                            self,
                        ).presence.presence_of(u)
                    &&& out.deliveries@.len() == 0
                    &&& out.updates@ == if old(self).presence.presence_of(m.user_id).status
                        == PresenceStatus::Offline {
                        Seq::<StatusUpdate>::empty()
                    } else {
                        seq![update_for(m.user_id, final(self).presence.presence_of(m.user_id))]
                    }
                },
                SessionAction::Logout(m) => {
                    &&& final(self).server == old(self).server
                    &&& final(self).presence.presence_of(m.user_id) == logout_step(
                        old(self).presence.presence_of(m.user_id),
                        now,
                    )
                    &&& forall|u: i32|
                        u != m.user_id ==> final(self).presence.presence_of(u) == old(
                            self,
                        ).presence.presence_of(u)
                    &&& out.deliveries@.len() == 0
                    &&& out.updates@ == seq![
                        update_for(m.user_id, final(self).presence.presence_of(m.user_id)),
                    ]
                },
                SessionAction::Join(j) => {
                    &&& final(self).presence == old(self).presence
                    &&& final(self).server.has_room(j.room_id)
                    &&& final(self).server.members(j.room_id) == old(self).server.members(
                        j.room_id,
                    ).insert(j.conn_id)
                    &&& forall|r: i32|
                        r != j.room_id ==> final(self).server.member_seq(r) == old(
                            self,
                        ).server.member_seq(r)
                    &&& out.deliveries@.len() == 0
                    &&& out.updates@.len() == 0
                },
                SessionAction::Leave(l) => {
                    &&& final(self).presence == old(self).presence
                    &&& final(self).server.members(l.room_id) == old(self).server.members(
                        l.room_id,
                    ).remove(l.conn_id)
                    &&& forall|r: i32|
                        r != l.room_id ==> final(self).server.member_seq(r) == old(
                            self,
                        ).server.member_seq(r)
                    &&& out.deliveries@.len() == 0
                    &&& out.updates@.len() == 0
                },
                SessionAction::Broadcast(m) => {
                    &&& *final(self) == *old(self)
                    &&& out.updates@.len() == 0
                    &&& out.deliveries@.map_values(|d: Delivery| d.conn_id) == old(
                        self,
                    ).server.member_seq(m.room_id)
                    &&& forall|k: int|
                        0 <= k < out.deliveries@.len() ==> (#[trigger] out.deliveries@[k]).text@
                            == m.message@
                },
            },
    {
        match action {
            SessionAction::Login(m) => {
                let update = self.presence.handle_login(m, now);
                let mut updates: Vec<StatusUpdate> = Vec::new();
                updates.push(update);
                proof {
                    assert(updates@ =~= seq![update]);
                }
                StepOutput { deliveries: Vec::new(), updates }
            },
            SessionAction::Activity(m) => {
                let update = self.presence.handle_activity(m, now);
                let mut updates: Vec<StatusUpdate> = Vec::new();
                match update {
                    Some(u) => {
                        updates.push(u);
                        proof {
                            assert(updates@ =~= seq![u]);
                        }
                    },
                    None => {},
                }
                StepOutput { deliveries: Vec::new(), updates }
            },
            SessionAction::Logout(m) => {
                let update = self.presence.handle_logout(m, now);
                let mut updates: Vec<StatusUpdate> = Vec::new();
                updates.push(update);
                proof {
                    assert(updates@ =~= seq![update]);
                }
                StepOutput { deliveries: Vec::new(), updates }
            },
            SessionAction::Join(j) => {
                self.server.join_room(j.room_id, j.conn_id);
                StepOutput { deliveries: Vec::new(), updates: Vec::new() }
            },
            SessionAction::Leave(l) => {
                self.server.leave_room(l.room_id, l.conn_id);
                StepOutput { deliveries: Vec::new(), updates: Vec::new() }
            },
            SessionAction::Broadcast(m) => {
                let deliveries = self.server.broadcast_message(&m);
                StepOutput { deliveries, updates: Vec::new() }
            },
        }
    }

    /// An accepted connection at time `now`: builds the session, marks the
    /// user online, joins the connection to the room, and fans the join
    /// announcement out to every member now present — the joiner included.
    /// Returns the active session, the announcement deliveries, and the
    /// login's persistence command.
    pub fn connect(&mut self, user_id: i32, room_id: i32, conn_id: u64, now: u64) -> (r: (
        ChatSession,
        StepOutput,
    ))
        requires
            old(self).wf(),
        ensures
            final(self).wf(),
            r.0.user_id == user_id,
            r.0.room_id == room_id,
            r.0.conn_id == conn_id,
            r.0.state == SessionState::Active,
            final(self).presence.presence_of(user_id) == login_step(
                old(self).presence.presence_of(user_id),
                now,
            ),
            forall|u: i32|
                u != user_id ==> final(self).presence.presence_of(u) == old(
                    self,
                ).presence.presence_of(u),
            final(self).server.has_room(room_id),
            final(self).server.members(room_id) == old(self).server.members(room_id).insert(
                conn_id,
            ),
            forall|rm: i32|
                rm != room_id ==> final(self).server.member_seq(rm) == old(self).server.member_seq(
                    rm,
                ),
            r.1.deliveries@.map_values(|d: Delivery| d.conn_id) == final(self).server.member_seq(
                room_id,
            ),
            forall|k: int|
                0 <= k < r.1.deliveries@.len() ==> (#[trigger] r.1.deliveries@[k]).text@
                    == text::join_line_text(user_id as int, room_id as int),
            r.1.updates@ == seq![update_for(user_id, final(self).presence.presence_of(user_id))],
    {
        let mut session = ChatSession::new(user_id, room_id, conn_id);
        let mut actions = session.started();
        let a0 = actions.remove(0);
        let out0 = self.apply(a0, now);
        let a1 = actions.remove(0);
        let _ = self.apply(a1, now);
        let a2 = actions.remove(0);
        let out2 = self.apply(a2, now);
        (session, StepOutput { deliveries: out2.deliveries, updates: out0.updates })
    }

    /// One inbound frame for `session` at time `now`: a text frame on an
    /// active session refreshes the user's presence and then fans
    /// `User <user_id>: <text>` out to every current member of the
    /// session's room; everything else changes nothing.
    pub fn handle_frame(&mut self, session: &ChatSession, frame: InboundFrame, now: u64) -> (out:
        StepOutput)
        requires
            old(self).wf(),
        ensures
            final(self).wf(),
            final(self).server == old(self).server,
            match frame {
                InboundFrame::Text(t) => if session.state == SessionState::Active {
                    &&& final(self).presence.presence_of(session.user_id) == activity_step(
                        old(self).presence.presence_of(session.user_id),
                        now,
                    )
                    &&& forall|u: i32|
                        u != session.user_id ==> final(self).presence.presence_of(u) == old(
                            self,
                        ).presence.presence_of(u)
                    &&& out.deliveries@.map_values(|d: Delivery| d.conn_id) == old(
                        self,
                    ).server.member_seq(session.room_id)
                    &&& forall|k: int|
                        0 <= k < out.deliveries@.len() ==> (#[trigger] out.deliveries@[k]).text@
                            == text::chat_line_text(session.user_id as int, t@)
                    &&& out.updates@ == if old(self).presence.presence_of(session.user_id).status
                        == PresenceStatus::Offline {
                        Seq::<StatusUpdate>::empty()
                    } else {
                        seq![
                            update_for(
                                session.user_id,
                                final(self).presence.presence_of(session.user_id),
                            ),
                        ]
                    }
                } else {
                    *final(self) == *old(self) && out.deliveries@.len() == 0 && out.updates@.len()
                        == 0
                },
                InboundFrame::Other => *final(self) == *old(self) && out.deliveries@.len() == 0
                    && out.updates@.len() == 0,
            },
    {
        let mut actions = session.handle_frame(frame);
        if actions.len() == 0 {
            return StepOutput { deliveries: Vec::new(), updates: Vec::new() };
        }
        let a0 = actions.remove(0);
        let out0 = self.apply(a0, now);
        let a1 = actions.remove(0);
        let out1 = self.apply(a1, now);
        StepOutput { deliveries: out1.deliveries, updates: out0.updates }
    }

    /// Transport closure for `session` at time `now`, however it was
    /// triggered: the first closure removes the connection from its room and
    /// marks the user offline, in that order; any further closure of the
    /// same session changes nothing — the teardown runs exactly once.
    pub fn disconnect(&mut self, session: &mut ChatSession, now: u64) -> (out: StepOutput)
        requires
            old(self).wf(),
        ensures
            final(self).wf(),
            final(session).user_id == old(session).user_id,
            final(session).room_id == old(session).room_id,
            final(session).conn_id == old(session).conn_id,
            final(session).state == SessionState::Closed,
            old(session).state != SessionState::Closed ==> {
                &&& final(self).server.members(old(session).room_id) == old(self).server.members(
                    old(session).room_id,
                ).remove(old(session).conn_id)
                &&& forall|rm: i32|
                    rm != old(session).room_id ==> final(self).server.member_seq(rm) == old(
                        self,
                    ).server.member_seq(rm)
                &&& final(self).presence.presence_of(old(session).user_id) == logout_step(
                    old(self).presence.presence_of(old(session).user_id),
                    now,
                )
                &&& forall|u: i32|
                    u != old(session).user_id ==> final(self).presence.presence_of(u) == old(
                        self,
                    ).presence.presence_of(u)
                &&& out.deliveries@.len() == 0
                &&& out.updates@ == seq![
                    update_for(
                        old(session).user_id,
                        final(self).presence.presence_of(old(session).user_id),
                    ),
                ]
            },
            old(session).state == SessionState::Closed ==> *final(self) == *old(self)
                && out.deliveries@.len() == 0 && out.updates@.len() == 0,
    {
        let mut actions = session.stopping();
        if actions.len() == 0 {
            return StepOutput { deliveries: Vec::new(), updates: Vec::new() };
        }
        let a0 = actions.remove(0);
        let _ = self.apply(a0, now);
        let a1 = actions.remove(0);
        let out1 = self.apply(a1, now);
        StepOutput { deliveries: Vec::new(), updates: out1.updates }
    }

    /// The periodic idle sweep at time `now`: online users silent past the
    /// idle threshold become away; no one else changes, no timestamp moves,
    /// and rooms are untouched. Returns the persistence commands for the
    /// demoted rows.
    pub fn sweep(&mut self, now: u64) -> (updates: Vec<StatusUpdate>)
        requires
            old(self).wf(),
        ensures
            final(self).wf(),
            final(self).server == old(self).server,
            forall|u: i32|
                final(self).presence.presence_of(u) == sweep_step(
                    old(self).presence.presence_of(u),
                    now,
                ),
            updates@ == sweep_updates(old(self).presence.records@, now),
    {
        self.presence.sweep(now)
    }
}

} // verus!
