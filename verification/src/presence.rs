//! The presence tracker: a coarse online / away / offline status per user,
//! derived from login, activity and logout events and from a periodic sweep
//! that demotes idle online users to away.
//!
//! Every transition is stamped with a time in seconds. The tracker never lets
//! a user's last-activity timestamp run backwards: an event carrying an
//! earlier time than the recorded one keeps the recorded time. Each effective
//! transition also yields a [`StatusUpdate`] — the command for the
//! persistence collaborator, which the caller executes best-effort: a failed
//! write is logged and never rolls the tracker back.

use vstd::prelude::*;

verus! {

broadcast use vstd::seq_lib::group_seq_properties;

/// How long an online user may stay silent before a sweep demotes it to
/// away, in seconds.
pub const IDLE_THRESHOLD_SECS: u64 = 120;

/// How often the periodic sweep fires, in seconds.
pub const SWEEP_INTERVAL_SECS: u64 = 30;

/// A user's coarse presence status.
#[derive(Clone, Copy, PartialEq, Eq, Structural, Debug)]
pub enum PresenceStatus {
    Online,
    Away,
    Offline,
}

impl PresenceStatus {
    /// The status label as persisted by the collaborator's store.
    pub open spec fn label(self) -> Seq<char> {
        match self {
            PresenceStatus::Online => "online"@,
            PresenceStatus::Away => "away"@,
            PresenceStatus::Offline => "offline"@,
        }
    }

    /// The status label as persisted by the collaborator's store.
    pub fn as_str(&self) -> (r: &'static str)
        ensures
            r@ == self.label(),
    {
        match self {
            PresenceStatus::Online => "online",
            PresenceStatus::Away => "away",
            PresenceStatus::Offline => "offline",
        }
    }
}

/// A user's presence: status and last-activity timestamp, in seconds.
#[derive(Clone, Copy, PartialEq, Eq, Structural, Debug)]
pub struct UserPresence {
    pub status: PresenceStatus,
    pub last_seen: u64,
}

/// One record of the tracker: a user and its presence.
#[derive(Clone, Copy, PartialEq, Eq, Structural, Debug)]
pub struct PresenceRecord {
    pub user_id: i32,
    pub presence: UserPresence,
}

/// A persistence command for the collaborator backing the tracker: set the
/// user's row to this status and last-seen time.
#[derive(Clone, Copy, PartialEq, Eq, Structural, Debug)]
pub struct StatusUpdate {
    pub user_id: i32,
    pub status: PresenceStatus,
    pub last_seen: u64,
}

/// A login event: the user came online.
#[derive(Clone, Copy, PartialEq, Eq, Structural, Debug)]
pub struct UserLogin {
    pub user_id: i32,
}

/// An activity event, e.g. the user sending a message.
#[derive(Clone, Copy, PartialEq, Eq, Structural, Debug)]
pub struct UserActivity {
    pub user_id: i32,
}

/// A logout event: the user went offline.
#[derive(Clone, Copy, PartialEq, Eq, Structural, Debug)]
pub struct UserLogout {
    pub user_id: i32,
}

/// The presence of a user the tracker has never seen: offline, never active.
pub open spec fn offline_presence() -> UserPresence {
    UserPresence { status: PresenceStatus::Offline, last_seen: 0 }
}

/// A timestamp advanced to `now`, but never moved backwards.
pub open spec fn bump(last_seen: u64, now: u64) -> u64 {
    if now >= last_seen {
        now
    } else {
        last_seen
    }
}

/// The effect of a login on one user's presence: any state becomes online.
pub open spec fn login_step(p: UserPresence, now: u64) -> UserPresence {
    UserPresence { status: PresenceStatus::Online, last_seen: bump(p.last_seen, now) }
}

/// The effect of an activity event: an online or away user becomes online
/// and refreshes its timestamp; an offline user is unaffected — only
/// already-active sessions refresh.
pub open spec fn activity_step(p: UserPresence, now: u64) -> UserPresence {
    if p.status == PresenceStatus::Offline {
        p
    } else {
        UserPresence { status: PresenceStatus::Online, last_seen: bump(p.last_seen, now) }
    }
}

/// The effect of a logout: any state becomes offline.
pub open spec fn logout_step(p: UserPresence, now: u64) -> UserPresence {
    UserPresence { status: PresenceStatus::Offline, last_seen: bump(p.last_seen, now) }
}

/// Whether a sweep at `now` demotes this presence: online and silent for
/// longer than the idle threshold.
pub open spec fn idle_online(p: UserPresence, now: u64) -> bool {
    p.status == PresenceStatus::Online && p.last_seen + IDLE_THRESHOLD_SECS < now
}

/// The effect of a sweep at `now` on one user's presence: an online user
/// idle past the threshold becomes away; away and offline users, and online
/// users active recently, are unaffected. The timestamp is never touched.
pub open spec fn sweep_step(p: UserPresence, now: u64) -> UserPresence {
    if idle_online(p, now) {
        UserPresence { status: PresenceStatus::Away, last_seen: p.last_seen }
    } else {
        p
    }
}

/// The persistence command describing `p` as the new row of `user`.
pub open spec fn update_for(user: i32, p: UserPresence) -> StatusUpdate {
    StatusUpdate { user_id: user, status: p.status, last_seen: p.last_seen }
}

/// The persistence commands a sweep at `now` issues over these records, in
/// record order: one per demoted user.
pub open spec fn sweep_updates(s: Seq<PresenceRecord>, now: u64) -> Seq<StatusUpdate>
    decreases s.len(),
{
    if s.len() == 0 {
        Seq::<StatusUpdate>::empty()
    } else {
        let rest = sweep_updates(s.drop_last(), now);
        if idle_online(s.last().presence, now) {
            rest.push(update_for(s.last().user_id, sweep_step(s.last().presence, now)))
        } else {
            rest
        }
    }
}

/// The presence tracker. One record per user; a user with no record is
/// offline and has never been active.
pub struct PresenceActor {
    pub records: Vec<PresenceRecord>,
}

impl PresenceActor {
    /// Well-formed: one record per user.
    pub open spec fn wf(self) -> bool {
        forall|i: int, j: int|
            0 <= i < j < self.records@.len() ==> self.records@[i].user_id
                != self.records@[j].user_id
    }

    /// Whether the tracker holds a record for `user`.
    pub open spec fn has_user(self, user: i32) -> bool {
        exists|i: int|
            0 <= i < self.records@.len() && (#[trigger] self.records@[i]).user_id == user
    }

    /// The index of `user`'s record (meaningful only when `has_user`).
    pub open spec fn user_index(self, user: i32) -> int {
        choose|i: int|
            0 <= i < self.records@.len() && (#[trigger] self.records@[i]).user_id == user
    }

    /// The presence of `user`: its record's, or offline when it has none.
    pub open spec fn presence_of(self, user: i32) -> UserPresence {
        if self.has_user(user) {
            self.records@[self.user_index(user)].presence
        } else {
            offline_presence()
        }
    }
}

/// In a well-formed tracker, a record whose identifier is `user` is the
/// record of `user`.
pub proof fn lemma_user_at(s: PresenceActor, user: i32, k: int)
    requires
        s.wf(),
        0 <= k < s.records@.len(),
        s.records@[k].user_id == user,
    ensures
        s.has_user(user),
        s.user_index(user) == k,
        s.presence_of(user) == s.records@[k].presence,
{
    assert(s.has_user(user));
    let i = s.user_index(user);
    assert(0 <= i < s.records@.len() && s.records@[i].user_id == user);
    if i != k {
        assert(s.records@[i].user_id != s.records@[k].user_id);
    }
}

/// After replacing `user`'s record by another record of the same user, every
/// other user's presence is unchanged.
proof fn lemma_others_same_after_update(pre: PresenceActor, post: PresenceActor, user: i32, k: int)
    requires
        pre.wf(),
        post.wf(),
        0 <= k < pre.records@.len(),
        pre.records@[k].user_id == user,
        post.records@ == pre.records@.update(k, post.records@[k]),
        post.records@[k].user_id == user,
    ensures
        forall|u: i32| u != user ==> post.presence_of(u) == pre.presence_of(u),
{
    assert forall|u: i32| u != user implies post.presence_of(u) == pre.presence_of(u) by {
        if pre.has_user(u) {
            let k0 = pre.user_index(u);
            assert(0 <= k0 < pre.records@.len() && pre.records@[k0].user_id == u);
            assert(k0 != k);
            assert(post.records@[k0] == pre.records@[k0]);
            lemma_user_at(post, u, k0);
            lemma_user_at(pre, u, k0);
        } else {
            assert forall|i: int| 0 <= i < post.records@.len() implies (#[trigger] post.records@[
                i
            ]).user_id != u by {
                if i != k {
                    assert(post.records@[i] == pre.records@[i]);
                }
            }
            assert(!post.has_user(u));
        }
    }
}

/// After appending a record for a new user, every other user's presence is
/// unchanged.
proof fn lemma_others_same_after_append(pre: PresenceActor, post: PresenceActor, user: i32, u: i32)
    requires
        pre.wf(),
        post.wf(),
        post.records@.len() == pre.records@.len() + 1,
        forall|i: int| 0 <= i < pre.records@.len() ==> post.records@[i] == pre.records@[i],
        post.records@[pre.records@.len() as int].user_id == user,
        u != user,
    ensures
        post.presence_of(u) == pre.presence_of(u),
{
    if pre.has_user(u) {
        let k0 = pre.user_index(u);
        assert(0 <= k0 < pre.records@.len() && pre.records@[k0].user_id == u);
        assert(post.records@[k0] == pre.records@[k0]);
        lemma_user_at(post, u, k0);
        lemma_user_at(pre, u, k0);
    } else {
        assert forall|i: int| 0 <= i < post.records@.len() implies (#[trigger] post.records@[
            i
        ]).user_id != u by {
            if i < pre.records@.len() {
                assert(post.records@[i] == pre.records@[i]);
            }
        }
        assert(!post.has_user(u));
    }
}

impl PresenceActor {
    /// A tracker with no records: every user offline.
    pub fn new() -> (s: Self)
        ensures
            s.wf(),
            forall|u: i32| s.presence_of(u) == offline_presence(),
    {
        PresenceActor { records: Vec::new() }
    }

    /// Finds the record of `user`, if present.
    fn find_user(&self, user: i32) -> (r: Option<usize>)
        requires
            self.wf(),
        ensures
            match r {
                Some(k) => {
                    &&& k < self.records@.len()
                    &&& self.records@[k as int].user_id == user
                    &&& self.has_user(user)
                    &&& self.user_index(user) == k
                },
                None => !self.has_user(user),
            },
    {
        let mut i: usize = 0;
        while i < self.records.len()
            invariant
                self.wf(),
                i <= self.records@.len(),
                forall|j: int| 0 <= j < i ==> (#[trigger] self.records@[j]).user_id != user,
            decreases self.records@.len() - i,
        {
            if self.records[i].user_id == user {
                proof {
                    lemma_user_at(*self, user, i as int);
                }
                return Some(i);
            }
            i += 1;
        }
        None
    }

    /// Writes `p` as `user`'s presence, creating the record when absent.
    fn set_presence(&mut self, user: i32, p: UserPresence)
        requires
            old(self).wf(),
        ensures
            final(self).wf(),
            final(self).presence_of(user) == p,
            forall|u: i32| u != user ==> final(self).presence_of(u) == old(self).presence_of(u),
    {
        let ghost pre = *self;
        match self.find_user(user) {
            Some(k) => {
                self.records[k].presence = p;
                proof {
                    assert(self.records@ =~= pre.records@.update(k as int, self.records@[k as int]));
                    assert(forall|i: int|
                        0 <= i < self.records@.len() ==> (#[trigger] self.records@[i]).user_id
                            == pre.records@[i].user_id);
                    assert(self.wf());
                    lemma_user_at(*self, user, k as int);
                    lemma_others_same_after_update(pre, *self, user, k as int);
                }
            },
            None => {
                let n = self.records.len();
                self.records.push(PresenceRecord { user_id: user, presence: p });
                proof {
                    assert(forall|i: int|
                        0 <= i < n ==> self.records@[i] == pre.records@[i]);
                    assert forall|i: int, j: int|
                        0 <= i < j < self.records@.len() implies self.records@[i].user_id
                        != self.records@[j].user_id by {
                        if j == n {
                            assert(pre.records@[i].user_id != user);
                        }
                    }
                    lemma_user_at(*self, user, n as int);
                    assert forall|u: i32| u != user implies final(self).presence_of(u)
                        == pre.presence_of(u) by {
                        lemma_others_same_after_append(pre, *self, user, u);
                    }
                }
            },
        }
    }

    /// Reads `user`'s presence.
    pub fn presence(&self, user_id: i32) -> (p: UserPresence)
        requires
            self.wf(),
        ensures
            p == self.presence_of(user_id),
    {
        match self.find_user(user_id) {
            Some(k) => self.records[k].presence,
            None => UserPresence { status: PresenceStatus::Offline, last_seen: 0 },
        }
    }

    /// A login at time `now`: the user becomes online, its timestamp
    /// advances to `now` (and never backwards). Returns the persistence
    /// command for the new row.
    pub fn handle_login(&mut self, msg: UserLogin, now: u64) -> (update: StatusUpdate)
        requires
            old(self).wf(),
        ensures
            final(self).wf(),
            final(self).presence_of(msg.user_id) == login_step(
                old(self).presence_of(msg.user_id),
                now,
            ),
            forall|u: i32|
                u != msg.user_id ==> final(self).presence_of(u) == old(self).presence_of(u),
            update == update_for(msg.user_id, final(self).presence_of(msg.user_id)),
    {
        let prior = self.presence(msg.user_id);
        let last_seen = if now >= prior.last_seen {
            now
        } else {
            prior.last_seen
        };
        let p = UserPresence { status: PresenceStatus::Online, last_seen };
        self.set_presence(msg.user_id, p);
        StatusUpdate { user_id: msg.user_id, status: PresenceStatus::Online, last_seen }
    }

    /// An activity event at time `now`: an online or away user becomes
    /// online and refreshes its timestamp; an event from an offline (or
    /// unknown) user is ignored and issues no persistence command.
    pub fn handle_activity(&mut self, msg: UserActivity, now: u64) -> (update: Option<
        StatusUpdate,
    >)
        requires
            old(self).wf(),
        ensures
            final(self).wf(),
            final(self).presence_of(msg.user_id) == activity_step(
                old(self).presence_of(msg.user_id),
                now,
            ),
            forall|u: i32|
                u != msg.user_id ==> final(self).presence_of(u) == old(self).presence_of(u),
            update == if old(self).presence_of(msg.user_id).status == PresenceStatus::Offline {
                Option::<StatusUpdate>::None
            } else {
                Option::Some(update_for(msg.user_id, final(self).presence_of(msg.user_id)))
            },
    {
        let prior = self.presence(msg.user_id);
        if prior.status == PresenceStatus::Offline {
            return None;
        }
        let last_seen = if now >= prior.last_seen {
            now
        } else {
            prior.last_seen
        };
        let p = UserPresence { status: PresenceStatus::Online, last_seen };
        self.set_presence(msg.user_id, p);
        Some(StatusUpdate { user_id: msg.user_id, status: PresenceStatus::Online, last_seen })
    }

    /// A logout at time `now`: the user becomes offline, its timestamp
    /// advances to `now`. Returns the persistence command for the new row.
    pub fn handle_logout(&mut self, msg: UserLogout, now: u64) -> (update: StatusUpdate)
        requires
            old(self).wf(),
        ensures
            final(self).wf(),
            final(self).presence_of(msg.user_id) == logout_step(
                old(self).presence_of(msg.user_id),
                now,
            ),
            forall|u: i32|
                u != msg.user_id ==> final(self).presence_of(u) == old(self).presence_of(u),
            update == update_for(msg.user_id, final(self).presence_of(msg.user_id)),
    {
        let prior = self.presence(msg.user_id);
        let last_seen = if now >= prior.last_seen {
            now
        } else {
            prior.last_seen
        };
        let p = UserPresence { status: PresenceStatus::Offline, last_seen };
        self.set_presence(msg.user_id, p);
        StatusUpdate { user_id: msg.user_id, status: PresenceStatus::Offline, last_seen }
    }

    /// The periodic sweep at time `now`: every online user whose last
    /// activity is older than the idle threshold becomes away; everyone else
    /// — away, offline, or recently active — is unaffected, and no
    /// timestamp moves. Returns one persistence command per demoted user,
    /// in record order.
    pub fn sweep(&mut self, now: u64) -> (updates: Vec<StatusUpdate>)
        requires
            old(self).wf(),
        ensures
            final(self).wf(),
            forall|u: i32|
                final(self).presence_of(u) == sweep_step(old(self).presence_of(u), now),
            updates@ == sweep_updates(old(self).records@, now),
    {
        let ghost pre = *self;
        let mut updates: Vec<StatusUpdate> = Vec::new();
        let n = self.records.len();
        let mut i: usize = 0;
        while i < n
            invariant
                pre.wf(),
                n == pre.records@.len(),
                self.records@.len() == n,
                i <= n,
                forall|j: int| i <= j < n ==> self.records@[j] == pre.records@[j],
                forall|j: int|
                    0 <= j < i ==> (#[trigger] self.records@[j]).user_id == pre.records@[j].user_id
                        && self.records@[j].presence == sweep_step(pre.records@[j].presence, now),
                updates@ == sweep_updates(pre.records@.subrange(0, i as int), now),
            decreases n - i,
        {
            let ghost prefix = pre.records@.subrange(0, i as int);
            let ghost next_prefix = pre.records@.subrange(0, i as int + 1);
            let rec = self.records[i];
            if rec.presence.status == PresenceStatus::Online && now > IDLE_THRESHOLD_SECS
                && rec.presence.last_seen < now - IDLE_THRESHOLD_SECS {
                let p = UserPresence { status: PresenceStatus::Away, last_seen: rec.presence.last_seen };
                self.records[i].presence = p;
                updates.push(StatusUpdate {
                    user_id: rec.user_id,
                    status: PresenceStatus::Away,
                    last_seen: rec.presence.last_seen,
                });
                proof {
                    assert(idle_online(pre.records@[i as int].presence, now));
                }
            } else {
                proof {
                    assert(!idle_online(pre.records@[i as int].presence, now));
                    assert(self.records@[i as int].presence == sweep_step(
                        pre.records@[i as int].presence,
                        now,
                    ));
                }
            }
            proof {
                assert(next_prefix.drop_last() =~= prefix);
                assert(next_prefix.last() == pre.records@[i as int]);
                assert(updates@ == sweep_updates(next_prefix, now));
            }
            i += 1;
        }
        proof {
            assert(pre.records@.subrange(0, n as int) =~= pre.records@);
            assert(forall|j: int|
                0 <= j < n ==> (#[trigger] self.records@[j]).user_id == pre.records@[j].user_id);
            assert(self.wf());
            assert forall|u: i32| final(self).presence_of(u) == sweep_step(
                pre.presence_of(u),
                now,
            ) by {
                if pre.has_user(u) {
                    let k0 = pre.user_index(u);
                    assert(0 <= k0 < pre.records@.len() && pre.records@[k0].user_id == u);
                    lemma_user_at(*self, u, k0);
                    lemma_user_at(pre, u, k0);
                } else {
                    assert forall|j: int| 0 <= j < self.records@.len() implies (
                    #[trigger] self.records@[j]).user_id != u by {
                        assert(pre.records@[j].user_id != u);
                    }
                    assert(!self.has_user(u));
                }
            }
        }
        updates
    }

    /// A login stamped with the current wall-clock time.
    pub fn handle_login_now(&mut self, msg: UserLogin) -> (update: StatusUpdate)
        requires
            old(self).wf(),
        ensures
            final(self).wf(),
            final(self).presence_of(msg.user_id).status == PresenceStatus::Online,
            final(self).presence_of(msg.user_id).last_seen >= old(self).presence_of(
                msg.user_id,
            ).last_seen,
            exists|t: u64|
                final(self).presence_of(msg.user_id) == login_step(
                    old(self).presence_of(msg.user_id),
                    t,
                ),
            forall|u: i32|
                u != msg.user_id ==> final(self).presence_of(u) == old(self).presence_of(u),
            update == update_for(msg.user_id, final(self).presence_of(msg.user_id)),
    {
        let now = crate::clock::now_seconds();
        let update = self.handle_login(msg, now);
        proof {
            assert(final(self).presence_of(msg.user_id) == login_step(
                old(self).presence_of(msg.user_id),
                now,
            ));
        }
        update
    }

    /// An activity event stamped with the current wall-clock time.
    pub fn handle_activity_now(&mut self, msg: UserActivity) -> (update: Option<StatusUpdate>)
        requires
            old(self).wf(),
        ensures
            final(self).wf(),
            exists|t: u64|
                final(self).presence_of(msg.user_id) == activity_step(
                    old(self).presence_of(msg.user_id),
                    t,
                ) && update == if old(self).presence_of(msg.user_id).status
                    == PresenceStatus::Offline {
                    Option::<StatusUpdate>::None
                } else {
                    Option::Some(update_for(msg.user_id, final(self).presence_of(msg.user_id)))
                },
            forall|u: i32|
                u != msg.user_id ==> final(self).presence_of(u) == old(self).presence_of(u),
    {
        let now = crate::clock::now_seconds();
        let update = self.handle_activity(msg, now);
        proof {
            assert(final(self).presence_of(msg.user_id) == activity_step(
                old(self).presence_of(msg.user_id),
                now,
            ));
        }
        update
    }

    /// A logout stamped with the current wall-clock time.
    pub fn handle_logout_now(&mut self, msg: UserLogout) -> (update: StatusUpdate)
        requires
            old(self).wf(),
        ensures
            final(self).wf(),
            final(self).presence_of(msg.user_id).status == PresenceStatus::Offline,
            final(self).presence_of(msg.user_id).last_seen >= old(self).presence_of(
                msg.user_id,
            ).last_seen,
            exists|t: u64|
                final(self).presence_of(msg.user_id) == logout_step(
                    old(self).presence_of(msg.user_id),
                    t,
                ),
            forall|u: i32|
                u != msg.user_id ==> final(self).presence_of(u) == old(self).presence_of(u),
            update == update_for(msg.user_id, final(self).presence_of(msg.user_id)),
    {
        let now = crate::clock::now_seconds();
        let update = self.handle_logout(msg, now);
        proof {
            assert(final(self).presence_of(msg.user_id) == logout_step(
                old(self).presence_of(msg.user_id),
                now,
            ));
        }
        update
    }

    /// The periodic sweep, run at the current wall-clock time. Whatever the
    /// clock returned: no timestamp moves, and only idle online users change
    /// status — to away.
    pub fn sweep_now(&mut self) -> (updates: Vec<StatusUpdate>)
        requires
            old(self).wf(),
        ensures
            final(self).wf(),
            exists|t: u64|
                (forall|u: i32|
                    final(self).presence_of(u) == sweep_step(old(self).presence_of(u), t))
                    && updates@ == sweep_updates(old(self).records@, t),
            forall|u: i32|
                old(self).presence_of(u).status != PresenceStatus::Online ==> final(self).presence_of(u)
                    == old(self).presence_of(u),
            forall|u: i32|
                final(self).presence_of(u).last_seen == old(self).presence_of(u).last_seen,
    {
        let now = crate::clock::now_seconds();
        let updates = self.sweep(now);
        proof {
            assert(forall|u: i32|
                final(self).presence_of(u) == sweep_step(old(self).presence_of(u), now));
        }
        updates
    }
}

/// No event ever moves a user's last-activity timestamp backwards: each
/// transition's timestamp is at least the prior one.
pub proof fn lemma_timestamps_monotonic(p: UserPresence, now: u64)
    ensures
        login_step(p, now).last_seen >= p.last_seen,
        activity_step(p, now).last_seen >= p.last_seen,
        logout_step(p, now).last_seen >= p.last_seen,
        sweep_step(p, now).last_seen >= p.last_seen,
{
}

/// The presence of a user after repeated sweeps, in order.
pub open spec fn sweep_times(p: UserPresence, times: Seq<u64>) -> UserPresence
    decreases times.len(),
{
    if times.len() == 0 {
        p
    } else {
        sweep_step(sweep_times(p, times.drop_last()), times.last())
    }
}

/// The sweep policy around a login: a sweep within the idle threshold of the
/// login leaves the user online; a sweep after the threshold has elapsed,
/// with no intervening activity, demotes it to away. The hypothesis is only
/// that the clock did not run backwards across the login.
pub proof fn lemma_login_then_sweep(p: UserPresence, t_login: u64, t_sweep: u64)
    requires
        t_login >= p.last_seen,
    ensures
        t_sweep <= t_login + IDLE_THRESHOLD_SECS ==> sweep_step(
            login_step(p, t_login),
            t_sweep,
        ).status == PresenceStatus::Online,
        t_sweep > t_login + IDLE_THRESHOLD_SECS ==> sweep_step(
            login_step(p, t_login),
            t_sweep,
        ).status == PresenceStatus::Away,
{
}

/// After a logout, sweeps never revive the user: however many sweeps follow
/// and whatever times they run at, the user stays offline.
pub proof fn lemma_logout_then_sweeps_stay_offline(p: UserPresence, t_logout: u64, times: Seq<u64>)
    ensures
        sweep_times(logout_step(p, t_logout), times) == logout_step(p, t_logout),
        sweep_times(logout_step(p, t_logout), times).status == PresenceStatus::Offline,
    decreases times.len(),
{
    if times.len() > 0 {
        lemma_logout_then_sweeps_stay_offline(p, t_logout, times.drop_last());
    }
}

} // verus!
