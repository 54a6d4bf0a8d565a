use invite_tracker::cache::InviteCache;
use invite_tracker::events::{NoGrant, PlatformEvent, Reaction};
use invite_tracker::join::JoinGrant;
use invite_tracker::record::{InviteRecord, LiveInvite};

#[test]
fn created_invite_starts_without_roles_and_without_uses() {
    let mut cache = InviteCache::new();
    cache.on_invite_created("fresh");
    assert_eq!(cache.snapshot(), vec![InviteRecord::new("fresh", vec![], 0)]);
}

#[test]
fn creating_a_known_invite_keeps_its_roles_and_uses() {
    let mut cache = InviteCache::new();
    cache.put(InviteRecord::new("known", vec![5, 6], 12));
    cache.on_invite_created("known");
    cache.on_invite_created("known");
    assert_eq!(cache.snapshot(), vec![InviteRecord::new("known", vec![5, 6], 12)]);
}

#[test]
fn deleted_invite_leaves_the_cache() {
    let mut cache = InviteCache::new();
    cache.put(InviteRecord::new("a", vec![1], 1));
    cache.put(InviteRecord::new("b", vec![2], 2));
    cache.on_invite_deleted("a");
    assert_eq!(cache.snapshot(), vec![InviteRecord::new("b", vec![2], 2)]);
}

#[test]
fn deleting_an_unknown_invite_changes_nothing() {
    let mut cache = InviteCache::new();
    cache.put(InviteRecord::new("a", vec![1], 1));
    cache.on_invite_deleted("b");
    cache.on_invite_deleted("b");
    assert_eq!(cache.snapshot(), vec![InviteRecord::new("a", vec![1], 1)]);
}

#[test]
fn deleted_and_created_again_starts_from_nothing() {
    let mut cache = InviteCache::new();
    cache.put(InviteRecord::new("a", vec![1], 9));
    cache.on_invite_deleted("a");
    cache.on_invite_created("a");
    assert_eq!(cache.get("a"), Some(InviteRecord::new("a", vec![], 0)));
}

#[test]
fn handle_applies_created_and_deleted() {
    let mut cache = InviteCache::new();
    let created = cache.handle(PlatformEvent::InviteCreated { code: "x".to_string() });
    assert_eq!(created, Reaction::Nothing);
    assert_eq!(cache.snapshot(), vec![InviteRecord::new("x", vec![], 0)]);
    let deleted = cache.handle(PlatformEvent::InviteDeleted { code: "x".to_string() });
    assert_eq!(deleted, Reaction::Nothing);
    assert!(cache.is_empty());
}

#[test]
fn handle_grants_the_roles_of_the_consumed_invite() {
    let mut cache = InviteCache::new();
    cache.put(InviteRecord::new("x", vec![3, 4], 1));
    let reaction = cache.handle(PlatformEvent::MemberJoined {
        member: 77,
        live: Some(vec![LiveInvite::new("x", 2)]),
    });
    assert_eq!(
        reaction,
        Reaction::GrantRoles {
            member: 77,
            grant: JoinGrant { code: "x".to_string(), roles: vec![3, 4], uses: 2 },
        }
    );
    assert_eq!(cache.get("x"), Some(InviteRecord::new("x", vec![3, 4], 2)));
}

#[test]
fn handle_logs_a_join_without_increase() {
    let mut cache = InviteCache::new();
    cache.put(InviteRecord::new("x", vec![3], 2));
    let reaction = cache.handle(PlatformEvent::MemberJoined {
        member: 5,
        live: Some(vec![LiveInvite::new("x", 2)]),
    });
    assert_eq!(reaction, Reaction::LogUngranted { member: 5, reason: NoGrant::NoIncrease });
    assert_eq!(cache.snapshot(), vec![InviteRecord::new("x", vec![3], 2)]);
}

#[test]
fn handle_never_guesses_when_the_invite_list_is_missing() {
    let mut cache = InviteCache::new();
    cache.put(InviteRecord::new("x", vec![3], 2));
    let reaction = cache.handle(PlatformEvent::MemberJoined { member: 5, live: None });
    assert_eq!(
        reaction,
        Reaction::LogUngranted { member: 5, reason: NoGrant::InvitesUnavailable }
    );
    assert_eq!(cache.snapshot(), vec![InviteRecord::new("x", vec![3], 2)]);
}
