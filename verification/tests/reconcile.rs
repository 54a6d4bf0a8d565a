use invite_tracker::reconcile::reconcile;
use invite_tracker::record::{InviteRecord, LiveInvite, PersistedInviteRoles};

#[test]
fn stale_codes_are_dropped_and_new_codes_start_without_roles() {
    let persisted =
        vec![PersistedInviteRoles::new("A", vec![1]), PersistedInviteRoles::new("B", vec![2])];
    let live = vec![LiveInvite::new("A", 3), LiveInvite::new("C", 0)];
    let cache = reconcile(&persisted, &live);
    assert_eq!(
        cache.snapshot(),
        vec![InviteRecord::new("A", vec![1], 3), InviteRecord::new("C", vec![], 0)]
    );
    assert_eq!(cache.get("B"), None);
    assert_eq!(cache.len(), 2);
}

#[test]
fn nothing_persisted_gives_the_live_list_without_roles() {
    let live = vec![LiveInvite::new("x", 4), LiveInvite::new("y", 0)];
    let cache = reconcile(&vec![], &live);
    assert_eq!(
        cache.snapshot(),
        vec![InviteRecord::new("x", vec![], 4), InviteRecord::new("y", vec![], 0)]
    );
}

#[test]
fn nothing_live_gives_an_empty_cache() {
    let persisted = vec![PersistedInviteRoles::new("A", vec![1, 2])];
    let cache = reconcile(&persisted, &vec![]);
    assert!(cache.is_empty());
    assert!(reconcile(&vec![], &vec![]).is_empty());
}

#[test]
fn the_snapshot_follows_the_live_list() {
    let persisted = vec![
        PersistedInviteRoles::new("c", vec![3]),
        PersistedInviteRoles::new("a", vec![1]),
        PersistedInviteRoles::new("b", vec![2]),
    ];
    let live = vec![LiveInvite::new("b", 1), LiveInvite::new("c", 2), LiveInvite::new("a", 3)];
    let cache = reconcile(&persisted, &live);
    assert_eq!(
        cache.snapshot(),
        vec![
            InviteRecord::new("b", vec![2], 1),
            InviteRecord::new("c", vec![3], 2),
            InviteRecord::new("a", vec![1], 3),
        ]
    );
}

#[test]
fn a_code_listed_twice_takes_the_count_of_its_first_listing() {
    let live = vec![LiveInvite::new("a", 5), LiveInvite::new("b", 1), LiveInvite::new("a", 9)];
    let cache = reconcile(&vec![PersistedInviteRoles::new("a", vec![7])], &live);
    assert_eq!(
        cache.snapshot(),
        vec![InviteRecord::new("a", vec![7], 5), InviteRecord::new("b", vec![], 1)]
    );
}

#[test]
fn a_code_persisted_twice_takes_the_roles_of_its_last_record() {
    let persisted = vec![
        PersistedInviteRoles::new("a", vec![1, 2]),
        PersistedInviteRoles::new("gone", vec![9]),
        PersistedInviteRoles::new("a", vec![3]),
    ];
    let cache = reconcile(&persisted, &vec![LiveInvite::new("a", 0)]);
    assert_eq!(cache.snapshot(), vec![InviteRecord::new("a", vec![3], 0)]);
}

#[test]
fn persisted_roles_are_carried_forward_as_they_are() {
    let persisted = vec![PersistedInviteRoles::new("a", vec![4, 4, 2])];
    let cache = reconcile(&persisted, &vec![LiveInvite::new("a", 1)]);
    assert_eq!(cache.get("a"), Some(InviteRecord::new("a", vec![4, 4, 2], 1)));
    let emptied =
        reconcile(&vec![PersistedInviteRoles::new("a", vec![])], &vec![LiveInvite::new("a", 1)]);
    assert_eq!(emptied.get("a"), Some(InviteRecord::new("a", vec![], 1)));
}
