//! The room registry: the authoritative map from room identifiers to the set
//! of connections currently joined, and the sole authority for fan-out.
//!
//! A connection is named by an opaque numeric handle chosen by the transport
//! layer. `join_room` and `leave_room` are idempotent; `broadcast_message`
//! produces one delivery per current member — to every member of the room and
//! to no one else — and never fails: a room with no entry or no members simply
//! yields no deliveries. Delivery itself (pushing the text down a socket) is
//! the caller's business, so a dead peer can never fail the broadcast.

use vstd::prelude::*;

verus! {

broadcast use vstd::seq_lib::group_seq_properties;

/// A chat message to fan out: the room, the sending user, and the exact wire
/// text every member is to receive.
pub struct ClientMessage {
    pub room_id: i32,
    pub message: String,
    pub user_id: i32,
}

/// A request to add a connection to a room's member set.
pub struct JoinRoom {
    pub room_id: i32,
    pub conn_id: u64,
}

/// A request to remove a connection from a room's member set.
pub struct LeaveRoom {
    pub room_id: i32,
    pub conn_id: u64,
}

/// One delivery attempt produced by a broadcast: push `text` to the
/// connection named `conn_id`.
pub struct Delivery {
    pub conn_id: u64,
    pub text: String,
}

/// One room's entry: its identifier and the connections currently joined,
/// each appearing at most once.
pub struct RoomEntry {
    pub room_id: i32,
    pub members: Vec<u64>,
}

/// The registry of all rooms. An entry may persist with no members; a room
/// with no entry and a room with an empty entry are observably the same.
pub struct ChatServer {
    pub rooms: Vec<RoomEntry>,
}

impl ChatServer {
    /// Well-formed: room identifiers are unique and no member is listed twice
    /// within a room.
    pub open spec fn wf(self) -> bool {
        &&& forall|i: int, j: int|
            0 <= i < j < self.rooms@.len() ==> self.rooms@[i].room_id != self.rooms@[j].room_id
        &&& forall|i: int| 0 <= i < self.rooms@.len() ==> (#[trigger] self.rooms@[i]).members@.no_duplicates()
    }

    /// Whether the registry holds an entry for `room`.
    pub open spec fn has_room(self, room: i32) -> bool {
        exists|i: int| 0 <= i < self.rooms@.len() && (#[trigger] self.rooms@[i]).room_id == room
    }

    /// The index of `room`'s entry (meaningful only when `has_room`).
    pub open spec fn room_index(self, room: i32) -> int {
        choose|i: int| 0 <= i < self.rooms@.len() && (#[trigger] self.rooms@[i]).room_id == room
    }

    /// The members of `room` in join order; empty when the room has no entry.
    pub open spec fn member_seq(self, room: i32) -> Seq<u64> {
        if self.has_room(room) {
            self.rooms@[self.room_index(room)].members@
        } else {
            Seq::<u64>::empty()
        }
    }

    /// The member set of `room`.
    pub open spec fn members(self, room: i32) -> Set<u64> {
        self.member_seq(room).to_set()
    }
}

/// In a well-formed registry, an entry whose identifier is `room` is the
/// entry of `room`.
pub proof fn lemma_room_at(s: ChatServer, room: i32, k: int)
    requires
        s.wf(),
        0 <= k < s.rooms@.len(),
        s.rooms@[k].room_id == room,
    ensures
        s.has_room(room),
        s.room_index(room) == k,
        s.member_seq(room) == s.rooms@[k].members@,
{
    assert(s.has_room(room));
    let i = s.room_index(room);
    assert(0 <= i < s.rooms@.len() && s.rooms@[i].room_id == room);
    if i != k {
        assert(s.rooms@[i].room_id != s.rooms@[k].room_id);
    }
}

/// Pushing a fresh element onto a sequence inserts it into the set of
/// elements.
pub proof fn lemma_to_set_push(s: Seq<u64>, x: u64)
    ensures
        s.push(x).to_set() =~= s.to_set().insert(x),
{
    assert forall|y: u64| s.push(x).contains(y) implies s.to_set().insert(x).contains(y) by {
        let i = choose|i: int| 0 <= i < s.push(x).len() && s.push(x)[i] == y;
        if i < s.len() {
            assert(s[i] == y);
        }
    }
    assert forall|y: u64| s.to_set().insert(x).contains(y) implies s.push(x).contains(y) by {
        if s.contains(y) {
            let i = choose|i: int| 0 <= i < s.len() && s[i] == y;
            assert(s.push(x)[i] == y);
        } else {
            assert(s.push(x)[s.len() as int] == x);
        }
    }
}

/// Removing the one occurrence of an element from a duplicate-free sequence
/// removes it from the set of elements.
pub proof fn lemma_distinct_remove_to_set(s: Seq<u64>, j: int)
    requires
        0 <= j < s.len(),
        s.no_duplicates(),
    ensures
        s.remove(j).to_set() =~= s.to_set().remove(s[j]),
        s.remove(j).no_duplicates(),
{
    s.remove_ensures(j);
    let t = s.remove(j);
    assert forall|y: u64| t.contains(y) implies s.to_set().remove(s[j]).contains(y) by {
        let i = choose|i: int| 0 <= i < t.len() && t[i] == y;
        if i < j {
            assert(s[i] == y);
            assert(s[i] != s[j]);
        } else {
            assert(s[i + 1] == y);
            assert(s[i + 1] != s[j]);
        }
    }
    assert forall|y: u64| s.to_set().remove(s[j]).contains(y) implies t.contains(y) by {
        let i = choose|i: int| 0 <= i < s.len() && s[i] == y;
        assert(i != j);
        if i < j {
            assert(t[i] == y);
        } else {
            assert(t[i - 1] == y);
        }
    }
    assert forall|p: int, q: int|
        0 <= p < t.len() && 0 <= q < t.len() && p != q implies t[p] != t[q] by {
        let sp: int = if p < j { p } else { p + 1 };
        let sq: int = if q < j { q } else { q + 1 };
        assert(t[p] == s[sp]);
        assert(t[q] == s[sq]);
    }
}

/// Finds the position of `x` in `v`, if present.
fn index_of(v: &Vec<u64>, x: u64) -> (r: Option<usize>)
    ensures
        match r {
            Some(k) => k < v@.len() && v@[k as int] == x,
            None => !v@.contains(x),
        },
{
    let mut i: usize = 0;
    while i < v.len()
        invariant
            i <= v@.len(),
            forall|j: int| 0 <= j < i ==> v@[j] != x,
        decreases v@.len() - i,
    {
        if v[i] == x {
            return Some(i);
        }
        i += 1;
    }
    None
}

impl ChatServer {
    /// A registry with no rooms.
    pub fn new() -> (s: Self)
        ensures
            s.wf(),
            forall|r: i32| !s.has_room(r),
            forall|r: i32| s.member_seq(r) == Seq::<u64>::empty(),
    {
        ChatServer { rooms: Vec::new() }
    }

    /// Finds the entry of `room_id`, if present.
    fn find_room(&self, room_id: i32) -> (r: Option<usize>)
        requires
            self.wf(),
        ensures
            match r {
                Some(k) => {
                    &&& k < self.rooms@.len()
                    &&& self.rooms@[k as int].room_id == room_id
                    &&& self.has_room(room_id)
                    &&& self.room_index(room_id) == k
                },
                None => !self.has_room(room_id),
            },
    {
        let mut i: usize = 0;
        while i < self.rooms.len()
            invariant
                self.wf(),
                i <= self.rooms@.len(),
                forall|j: int| 0 <= j < i ==> (#[trigger] self.rooms@[j]).room_id != room_id,
            decreases self.rooms@.len() - i,
        {
            if self.rooms[i].room_id == room_id {
                proof {
                    lemma_room_at(*self, room_id, i as int);
                }
                return Some(i);
            }
            i += 1;
        }
        None
    }

    /// Adds `conn_id` to `room_id`'s member set, creating the entry when
    /// absent. Idempotent: a second join of the same connection changes
    /// nothing, and no input is an error.
    pub fn join_room(&mut self, room_id: i32, conn_id: u64)
        requires
            old(self).wf(),
        ensures
            final(self).wf(),
            final(self).has_room(room_id),
            final(self).members(room_id) == old(self).members(room_id).insert(conn_id),
            forall|r: i32|
                r != room_id ==> final(self).member_seq(r) == old(self).member_seq(r),
            forall|r: i32| r != room_id ==> (final(self).has_room(r) <==> old(self).has_room(r)),
    {
        let ghost pre = *self;
        match self.find_room(room_id) {
            Some(k) => {
                match index_of(&self.rooms[k].members, conn_id) {
                    Some(_) => {
                        proof {
                            assert(pre.member_seq(room_id).contains(conn_id));
                            assert(pre.members(room_id).insert(conn_id) =~= pre.members(room_id));
                        }
                    },
                    None => {
                        let ghost old_members = self.rooms@[k as int].members@;
                        self.rooms[k].members.push(conn_id);
                        proof {
                            assert(self.rooms@ =~= pre.rooms@.update(
                                k as int,
                                self.rooms@[k as int],
                            ));
                            assert(old_members.push(conn_id).no_duplicates());
                            assert(self.wf());
                            lemma_room_at(*self, room_id, k as int);
                            lemma_to_set_push(old_members, conn_id);
                            lemma_others_same_after_update(pre, *self, room_id, k as int);
                        }
                    },
                }
            },
            None => {
                let mut members: Vec<u64> = Vec::new();
                members.push(conn_id);
                self.rooms.push(RoomEntry { room_id, members });
                proof {
                    let n = pre.rooms@.len() as int;
                    assert(forall|i: int|
                        0 <= i < n ==> self.rooms@[i] == pre.rooms@[i]);
                    assert(self.rooms@[n].room_id == room_id);
                    assert forall|i: int, j: int|
                        0 <= i < j < self.rooms@.len() implies self.rooms@[i].room_id
                        != self.rooms@[j].room_id by {
                        if j == n {
                            assert(pre.rooms@[i].room_id != room_id);
                        }
                    }
                    assert(seq![conn_id].no_duplicates());
                    assert(self.wf());
                    lemma_room_at(*self, room_id, n);
                    assert(seq![conn_id].contains(conn_id));
                    assert(self.members(room_id) =~= pre.members(room_id).insert(conn_id)) by {
                        assert(forall|y: u64| seq![conn_id].contains(y) ==> y == conn_id);
                        assert(!pre.has_room(room_id));
                    }
                    assert forall|r: i32| r != room_id implies final(self).member_seq(r)
                        == pre.member_seq(r) && (final(self).has_room(r) <==> pre.has_room(
                        r,
                    )) by {
                        lemma_room_transfer_after_append(pre, *self, room_id, r);
                    }
                }
            },
        }
    }

    /// Removes `conn_id` from `room_id`'s member set. Idempotent: removing an
    /// absent connection (or leaving an unknown room) changes nothing and is
    /// not an error, which tolerates duplicate leave calls from concurrent
    /// disconnect paths.
    pub fn leave_room(&mut self, room_id: i32, conn_id: u64)
        requires
            old(self).wf(),
        ensures
            final(self).wf(),
            final(self).members(room_id) == old(self).members(room_id).remove(conn_id),
            forall|r: i32|
                r != room_id ==> final(self).member_seq(r) == old(self).member_seq(r),
            forall|r: i32| r != room_id ==> (final(self).has_room(r) <==> old(self).has_room(r)),
    {
        let ghost pre = *self;
        match self.find_room(room_id) {
            Some(k) => {
                match index_of(&self.rooms[k].members, conn_id) {
                    Some(j) => {
                        let ghost old_members = self.rooms@[k as int].members@;
                        let _ = self.rooms[k].members.remove(j);
                        proof {
                            assert(self.rooms@ =~= pre.rooms@.update(
                                k as int,
                                self.rooms@[k as int],
                            ));
                            lemma_distinct_remove_to_set(old_members, j as int);
                            assert(self.wf());
                            lemma_room_at(*self, room_id, k as int);
                            lemma_others_same_after_update(pre, *self, room_id, k as int);
                        }
                    },
                    None => {
                        proof {
                            assert(!pre.member_seq(room_id).contains(conn_id));
                            assert(pre.members(room_id).remove(conn_id) =~= pre.members(room_id));
                        }
                    },
                }
            },
            None => {
                proof {
                    assert(pre.member_seq(room_id) == Seq::<u64>::empty());
                    assert(pre.members(room_id).remove(conn_id) =~= pre.members(room_id));
                }
            },
        }
    }

    /// Fans `msg.message` out to every connection currently joined to
    /// `msg.room_id`: one delivery per member, in join order, each carrying
    /// the text unchanged. Members present at call time receive it; no one
    /// else does. A room with no entry or no members yields zero deliveries,
    /// and nothing here can fail. The sender's own connection, when joined,
    /// is included — the registry echoes a message back to its sender, as the
    /// fan-out treats every member alike.
    pub fn broadcast_message(&self, msg: &ClientMessage) -> (deliveries: Vec<Delivery>)
        requires
            self.wf(),
        ensures
            deliveries@.map_values(|d: Delivery| d.conn_id) == self.member_seq(msg.room_id),
            deliveries@.map_values(|d: Delivery| d.conn_id).to_set() == self.members(msg.room_id),
            forall|k: int|
                0 <= k < deliveries@.len() ==> (#[trigger] deliveries@[k]).text@ == msg.message@,
    {
        let mut deliveries: Vec<Delivery> = Vec::new();
        match self.find_room(msg.room_id) {
            None => {
                proof {
                    assert(deliveries@.map_values(|d: Delivery| d.conn_id) =~= self.member_seq(
                        msg.room_id,
                    ));
                }
                deliveries
            },
            Some(k) => {
                let n = self.rooms[k].members.len();
                let mut i: usize = 0;
                while i < n
                    invariant
                        self.wf(),
                        k < self.rooms@.len(),
                        self.rooms@[k as int].room_id == msg.room_id,
                        self.has_room(msg.room_id),
                        self.room_index(msg.room_id) == k,
                        n == self.rooms@[k as int].members@.len(),
                        i <= n,
                        deliveries@.len() == i,
                        deliveries@.map_values(|d: Delivery| d.conn_id) =~= self.rooms@[
                            k as int
                        ].members@.subrange(0, i as int),
                        forall|j: int|
                            0 <= j < deliveries@.len() ==> (#[trigger] deliveries@[j]).text@
                                == msg.message@,
                    decreases n - i,
                {
                    let conn_id = self.rooms[k].members[i];
                    let text = msg.message.clone();
                    deliveries.push(Delivery { conn_id, text });
                    i += 1;
                    proof {
                        assert(deliveries@.map_values(|d: Delivery| d.conn_id) =~= self.rooms@[
                            k as int
                        ].members@.subrange(0, i as int));
                    }
                }
                proof {
                    assert(self.rooms@[k as int].members@.subrange(0, n as int) =~= self.rooms@[
                        k as int
                    ].members@);
                }
                deliveries
            },
        }
    }

    /// Whether `conn_id` is currently a member of `room_id`.
    pub fn is_member(&self, room_id: i32, conn_id: u64) -> (r: bool)
        requires
            self.wf(),
        ensures
            r == self.members(room_id).contains(conn_id),
    {
        match self.find_room(room_id) {
            Some(k) => {
                let r = index_of(&self.rooms[k].members, conn_id);
                proof {
                    if r is Some {
                        let j = r->0;
                        assert(self.member_seq(room_id).contains(conn_id));
                    }
                }
                r.is_some()
            },
            None => {
                proof {
                    assert(!self.member_seq(room_id).contains(conn_id));
                }
                false
            },
        }
    }

    /// The number of connections currently joined to `room_id`.
    pub fn member_count(&self, room_id: i32) -> (n: usize)
        requires
            self.wf(),
        ensures
            n == self.member_seq(room_id).len(),
    {
        match self.find_room(room_id) {
            Some(k) => self.rooms[k].members.len(),
            None => 0,
        }
    }
}

/// One membership event on a single room's member set.
pub enum RoomEvent {
    Join(u64),
    Leave(u64),
}

/// The effect of one membership event on a room's member set — exactly what
/// `join_room` and `leave_room` ensure about the member set of the room they
/// touch.
pub open spec fn apply_room_event(s: Set<u64>, e: RoomEvent) -> Set<u64> {
    match e {
        RoomEvent::Join(c) => s.insert(c),
        RoomEvent::Leave(c) => s.remove(c),
    }
}

/// The member set after replaying `events` over `init`, first to last.
pub open spec fn replay_room_events(init: Set<u64>, events: Seq<RoomEvent>) -> Set<u64>
    decreases events.len(),
{
    if events.len() == 0 {
        init
    } else {
        apply_room_event(replay_room_events(init, events.drop_last()), events.last())
    }
}

/// No `Leave` of `c` occurs at position `start` or later.
pub open spec fn no_leave_from(events: Seq<RoomEvent>, c: u64, start: int) -> bool {
    forall|j: int| start <= j < events.len() ==> events[j] != RoomEvent::Leave(c)
}

/// Whether `c` is a member once `events` have been replayed: either some
/// `Join` of `c` is not followed by any `Leave` of `c`, or `c` was a member
/// initially and no `Leave` of `c` occurs at all. How often `c` was joined is
/// irrelevant — only the last event touching it counts.
pub open spec fn net_member(init: Set<u64>, events: Seq<RoomEvent>, c: u64) -> bool {
    ||| exists|i: int|
        0 <= i < events.len() && events[i] == RoomEvent::Join(c) && no_leave_from(
            events,
            c,
            i + 1,
        )
    ||| (init.contains(c) && no_leave_from(events, c, 0))
}

/// Replaying any sequence of `Join`/`Leave` events over a room's member set
/// yields exactly the net membership: a connection is a member afterwards if
/// and only if its last membership event was a `Join` (or it was a member to
/// begin with and was never removed). In particular a repeated `Join` of the
/// same connection has the same effect as a single one.
pub proof fn lemma_replay_is_net_membership(init: Set<u64>, events: Seq<RoomEvent>)
    ensures
        replay_room_events(init, events) =~= Set::new(|c: u64| net_member(init, events, c)),
    decreases events.len(),
{
    if events.len() == 0 {
        assert forall|c: u64| net_member(init, events, c) implies init.contains(c) by {
            if !init.contains(c) {
                let i = choose|i: int|
                    0 <= i < events.len() && events[i] == RoomEvent::Join(c) && no_leave_from(
                        events,
                        c,
                        i + 1,
                    );
                assert(false);
            }
        }
    } else {
        let pre = events.drop_last();
        let last = events.last();
        let n = pre.len() as int;
        lemma_replay_is_net_membership(init, pre);
        let before = replay_room_events(init, pre);
        assert(forall|i: int| 0 <= i < n ==> pre[i] == events[i]);
        assert(events[n] == last);
        assert forall|c: u64|
            replay_room_events(init, events).contains(c) <==> net_member(
                init,
                events,
                c,
            ) by {
            lemma_net_member_step(init, events, c);
            assert(before.contains(c) <==> net_member(init, pre, c));
        }
    }
}

/// How net membership changes when one more event is appended.
proof fn lemma_net_member_step(init: Set<u64>, events: Seq<RoomEvent>, c: u64)
    requires
        events.len() > 0,
    ensures
        events.last() == RoomEvent::Join(c) ==> net_member(init, events, c),
        events.last() == RoomEvent::Leave(c) ==> !net_member(init, events, c),
        events.last() != RoomEvent::Join(c) && events.last() != RoomEvent::Leave(c) ==> (
        net_member(init, events, c) <==> net_member(init, events.drop_last(), c)),
{
    let pre = events.drop_last();
    let last = events.last();
    let n = pre.len() as int;
    assert(forall|i: int| 0 <= i < n ==> pre[i] == events[i]);
    assert(events[n] == last);
    if last == RoomEvent::Join(c) {
        assert(events[n] == RoomEvent::Join(c) && no_leave_from(events, c, n + 1));
    } else if last == RoomEvent::Leave(c) {
        if net_member(init, events, c) {
            if exists|i: int|
                0 <= i < events.len() && events[i] == RoomEvent::Join(c) && no_leave_from(
                    events,
                    c,
                    i + 1,
                ) {
                let i = choose|i: int|
                    0 <= i < events.len() && events[i] == RoomEvent::Join(c) && no_leave_from(
                        events,
                        c,
                        i + 1,
                    );
                assert(i < n);
                assert(events[n] != RoomEvent::Leave(c));
            } else {
                assert(no_leave_from(events, c, 0));
                assert(events[n] != RoomEvent::Leave(c));
            }
            assert(false);
        }
    } else {
        if net_member(init, pre, c) {
            if exists|i: int|
                0 <= i < pre.len() && pre[i] == RoomEvent::Join(c) && no_leave_from(
                    pre,
                    c,
                    i + 1,
                ) {
                let i = choose|i: int|
                    0 <= i < pre.len() && pre[i] == RoomEvent::Join(c) && no_leave_from(
                        pre,
                        c,
                        i + 1,
                    );
                assert(events[i] == RoomEvent::Join(c));
                assert forall|j: int| i + 1 <= j < events.len() implies events[j]
                    != RoomEvent::Leave(c) by {
                    if j < n {
                        assert(pre[j] != RoomEvent::Leave(c));
                    }
                }
                assert(net_member(init, events, c));
            } else {
                assert(init.contains(c) && no_leave_from(pre, c, 0));
                assert forall|j: int| 0 <= j < events.len() implies events[j]
                    != RoomEvent::Leave(c) by {
                    if j < n {
                        assert(pre[j] != RoomEvent::Leave(c));
                    }
                }
                assert(net_member(init, events, c));
            }
        }
        if net_member(init, events, c) {
            if exists|i: int|
                0 <= i < events.len() && events[i] == RoomEvent::Join(c) && no_leave_from(
                    events,
                    c,
                    i + 1,
                ) {
                let i = choose|i: int|
                    0 <= i < events.len() && events[i] == RoomEvent::Join(c) && no_leave_from(
                        events,
                        c,
                        i + 1,
                    );
                assert(i < n);
                assert(pre[i] == RoomEvent::Join(c));
                assert forall|j: int| i + 1 <= j < pre.len() implies pre[j] != RoomEvent::Leave(
                    c,
                ) by {
                    assert(events[j] != RoomEvent::Leave(c));
                }
                assert(net_member(init, pre, c));
            } else {
                assert(init.contains(c) && no_leave_from(events, c, 0));
                assert forall|j: int| 0 <= j < pre.len() implies pre[j] != RoomEvent::Leave(
                    c,
                ) by {
                    assert(events[j] != RoomEvent::Leave(c));
                }
                assert(net_member(init, pre, c));
            }
        }
    }
}

/// Joining the same connection twice has the same effect as joining it once.
pub proof fn lemma_join_idempotent(init: Set<u64>, events: Seq<RoomEvent>, c: u64)
    ensures
        replay_room_events(init, events.push(RoomEvent::Join(c)).push(RoomEvent::Join(c)))
            =~= replay_room_events(init, events.push(RoomEvent::Join(c))),
{
    let once = events.push(RoomEvent::Join(c));
    let twice = once.push(RoomEvent::Join(c));
    assert(twice.drop_last() =~= once);
    assert(once.drop_last() =~= events);
    assert(replay_room_events(init, twice) =~= replay_room_events(init, once));
}

/// After replacing `room`'s entry by another entry for the same room, every
/// other room's entry — and hence its member sequence — is unchanged.
proof fn lemma_others_same_after_update(pre: ChatServer, post: ChatServer, room: i32, k: int)
    requires
        pre.wf(),
        post.wf(),
        0 <= k < pre.rooms@.len(),
        pre.rooms@[k].room_id == room,
        post.rooms@ == pre.rooms@.update(k, post.rooms@[k]),
        post.rooms@[k].room_id == room,
    ensures
        forall|r: i32| r != room ==> post.member_seq(r) == pre.member_seq(r),
        forall|r: i32| r != room ==> (post.has_room(r) <==> pre.has_room(r)),
{
    assert forall|r: i32| r != room implies post.member_seq(r) == pre.member_seq(r) && (
    post.has_room(r) <==> pre.has_room(r)) by {
        if pre.has_room(r) {
            let k0 = pre.room_index(r);
            assert(0 <= k0 < pre.rooms@.len() && pre.rooms@[k0].room_id == r);
            assert(k0 != k);
            assert(post.rooms@[k0] == pre.rooms@[k0]);
            lemma_room_at(post, r, k0);
            lemma_room_at(pre, r, k0);
        } else {
            assert forall|i: int| 0 <= i < post.rooms@.len() implies (#[trigger] post.rooms@[
                i
            ]).room_id != r by {
                if i != k {
                    assert(post.rooms@[i] == pre.rooms@[i]);
                }
            }
            assert(!post.has_room(r));
        }
    }
}

/// After appending an entry for a new room, every other room's entry — and
/// hence its member sequence — is unchanged.
proof fn lemma_room_transfer_after_append(pre: ChatServer, post: ChatServer, room: i32, r: i32)
    requires
        pre.wf(),
        post.wf(),
        post.rooms@.len() == pre.rooms@.len() + 1,
        forall|i: int| 0 <= i < pre.rooms@.len() ==> post.rooms@[i] == pre.rooms@[i],
        post.rooms@[pre.rooms@.len() as int].room_id == room,
        r != room,
    ensures
        post.member_seq(r) == pre.member_seq(r),
        post.has_room(r) <==> pre.has_room(r),
{
    if pre.has_room(r) {
        let k0 = pre.room_index(r);
        assert(0 <= k0 < pre.rooms@.len() && pre.rooms@[k0].room_id == r);
        assert(post.rooms@[k0] == pre.rooms@[k0]);
        lemma_room_at(post, r, k0);
        lemma_room_at(pre, r, k0);
    } else {
        assert forall|i: int| 0 <= i < post.rooms@.len() implies (#[trigger] post.rooms@[
            i
        ]).room_id != r by {
            if i < pre.rooms@.len() {
                assert(post.rooms@[i] == pre.rooms@[i]);
            }
        }
        assert(!post.has_room(r));
    }
}

} // verus!
