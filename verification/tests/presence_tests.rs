use chat_relay::presence::PresenceActor;
use chat_relay::presence::PresenceStatus;
use chat_relay::presence::UserActivity;
use chat_relay::presence::UserLogin;
use chat_relay::presence::UserLogout;
use chat_relay::presence::IDLE_THRESHOLD_SECS;

#[test]
fn unknown_user_is_offline() {
    let tracker = PresenceActor::new();
    let p = tracker.presence(7);
    assert_eq!(p.status, PresenceStatus::Offline);
    assert_eq!(p.last_seen, 0);
}

#[test]
fn login_sets_online_and_stamps_time() {
    let mut tracker = PresenceActor::new();
    let update = tracker.handle_login(UserLogin { user_id: 7 }, 1000);
    let p = tracker.presence(7);
    assert_eq!(p.status, PresenceStatus::Online);
    assert_eq!(p.last_seen, 1000);
    assert_eq!(update.user_id, 7);
    assert_eq!(update.status, PresenceStatus::Online);
    assert_eq!(update.last_seen, 1000);
}

#[test]
fn timestamps_never_run_backwards() {
    let mut tracker = PresenceActor::new();
    tracker.handle_login(UserLogin { user_id: 7 }, 1000);
    let update = tracker.handle_login(UserLogin { user_id: 7 }, 900);
    assert_eq!(tracker.presence(7).last_seen, 1000);
    assert_eq!(update.last_seen, 1000);
}

#[test]
fn sweep_within_threshold_keeps_online() {
    let mut tracker = PresenceActor::new();
    tracker.handle_login(UserLogin { user_id: 7 }, 1000);
    let updates = tracker.sweep(1000 + IDLE_THRESHOLD_SECS);
    assert_eq!(tracker.presence(7).status, PresenceStatus::Online);
    assert_eq!(updates.len(), 0);
}

#[test]
fn sweep_past_threshold_demotes_to_away() {
    let mut tracker = PresenceActor::new();
    tracker.handle_login(UserLogin { user_id: 7 }, 1000);
    let updates = tracker.sweep(1000 + IDLE_THRESHOLD_SECS + 1);
    let p = tracker.presence(7);
    assert_eq!(p.status, PresenceStatus::Away);
    assert_eq!(p.last_seen, 1000);
    assert_eq!(updates.len(), 1);
    assert_eq!(updates[0].user_id, 7);
    assert_eq!(updates[0].status, PresenceStatus::Away);
    assert_eq!(updates[0].last_seen, 1000);
}

#[test]
fn activity_refreshes_and_postpones_demotion() {
    let mut tracker = PresenceActor::new();
    tracker.handle_login(UserLogin { user_id: 7 }, 1000);
    let update = tracker.handle_activity(UserActivity { user_id: 7 }, 1100);
    assert!(update.is_some());
    let updates = tracker.sweep(1100 + IDLE_THRESHOLD_SECS);
    assert_eq!(updates.len(), 0);
    assert_eq!(tracker.presence(7).status, PresenceStatus::Online);
    let updates = tracker.sweep(1100 + IDLE_THRESHOLD_SECS + 1);
    assert_eq!(updates.len(), 1);
    assert_eq!(tracker.presence(7).status, PresenceStatus::Away);
}

#[test]
fn activity_brings_away_user_back_online() {
    let mut tracker = PresenceActor::new();
    tracker.handle_login(UserLogin { user_id: 7 }, 1000);
    tracker.sweep(2000);
    assert_eq!(tracker.presence(7).status, PresenceStatus::Away);
    tracker.handle_activity(UserActivity { user_id: 7 }, 2000);
    assert_eq!(tracker.presence(7).status, PresenceStatus::Online);
    assert_eq!(tracker.presence(7).last_seen, 2000);
}

#[test]
fn activity_from_offline_user_is_ignored() {
    let mut tracker = PresenceActor::new();
    let update = tracker.handle_activity(UserActivity { user_id: 7 }, 1000);
    assert!(update.is_none());
    assert_eq!(tracker.presence(7).status, PresenceStatus::Offline);
    tracker.handle_login(UserLogin { user_id: 7 }, 1000);
    tracker.handle_logout(UserLogout { user_id: 7 }, 1100);
    let update = tracker.handle_activity(UserActivity { user_id: 7 }, 1200);
    assert!(update.is_none());
    assert_eq!(tracker.presence(7).status, PresenceStatus::Offline);
}

#[test]
fn logout_sets_offline_and_sweeps_never_revive() {
    let mut tracker = PresenceActor::new();
    tracker.handle_login(UserLogin { user_id: 7 }, 1000);
    let update = tracker.handle_logout(UserLogout { user_id: 7 }, 1050);
    assert_eq!(update.status, PresenceStatus::Offline);
    assert_eq!(update.last_seen, 1050);
    tracker.sweep(5000);
    tracker.sweep(100000);
    let p = tracker.presence(7);
    assert_eq!(p.status, PresenceStatus::Offline);
    assert_eq!(p.last_seen, 1050);
}

#[test]
fn sweep_demotes_only_idle_online_users() {
    let mut tracker = PresenceActor::new();
    tracker.handle_login(UserLogin { user_id: 1 }, 1000);
    tracker.handle_login(UserLogin { user_id: 2 }, 2000);
    tracker.handle_login(UserLogin { user_id: 3 }, 1000);
    tracker.handle_logout(UserLogout { user_id: 3 }, 1001);
    let updates = tracker.sweep(2050);
    assert_eq!(updates.len(), 1);
    assert_eq!(updates[0].user_id, 1);
    assert_eq!(tracker.presence(1).status, PresenceStatus::Away);
    assert_eq!(tracker.presence(2).status, PresenceStatus::Online);
    assert_eq!(tracker.presence(3).status, PresenceStatus::Offline);
}

#[test]
fn status_labels_match_the_store() {
    assert_eq!(PresenceStatus::Online.as_str(), "online");
    assert_eq!(PresenceStatus::Away.as_str(), "away");
    assert_eq!(PresenceStatus::Offline.as_str(), "offline");
}

#[test]
fn wall_clock_login_is_online_and_survives_prompt_sweep() {
    let mut tracker = PresenceActor::new();
    let update = tracker.handle_login_now(UserLogin { user_id: 7 });
    assert_eq!(update.status, PresenceStatus::Online);
    assert!(update.last_seen > 0);
    let updates = tracker.sweep_now();
    assert_eq!(updates.len(), 0);
    assert_eq!(tracker.presence(7).status, PresenceStatus::Online);
}
