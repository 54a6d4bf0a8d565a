use invite_tracker::cache::InviteCache;
use invite_tracker::directory::{GuildRole, RoleDirectory};
use invite_tracker::editor::{EditError, EditOutcome};
use invite_tracker::record::InviteRecord;

fn guild_roles() -> RoleDirectory {
    RoleDirectory::new(vec![
        GuildRole::new(1, "Mod"),
        GuildRole::new(2, "Member"),
        GuildRole::new(3, "Guest"),
    ])
}

fn names(list: &[&str]) -> Vec<String> {
    list.iter().map(|name| name.to_string()).collect()
}

fn two_invites() -> InviteCache {
    let mut cache = InviteCache::new();
    cache.put(InviteRecord::new("A", vec![], 4));
    cache.put(InviteRecord::new("B", vec![2], 7));
    cache
}

#[test]
fn link_appends_the_resolved_roles() {
    let mut cache = two_invites();
    let outcome = cache.link("B", &names(&["Guest", "Mod"]), &guild_roles());
    assert_eq!(outcome, Ok(EditOutcome { roles: vec![2, 3, 1], unknown_roles: vec![] }));
    assert_eq!(cache.get("B"), Some(InviteRecord::new("B", vec![2, 3, 1], 7)));
}

#[test]
fn link_twice_yields_the_same_roles_as_link_once() {
    let mut once = two_invites();
    once.link("A", &names(&["Mod"]), &guild_roles()).unwrap();
    let mut twice = two_invites();
    twice.link("A", &names(&["Mod"]), &guild_roles()).unwrap();
    let second = twice.link("A", &names(&["Mod"]), &guild_roles());
    assert_eq!(second, Ok(EditOutcome { roles: vec![1], unknown_roles: vec![] }));
    assert_eq!(once.snapshot(), twice.snapshot());
    assert_eq!(twice.get("A"), Some(InviteRecord::new("A", vec![1], 4)));
}

#[test]
fn link_does_not_duplicate_a_role_named_twice_in_one_request() {
    let mut cache = two_invites();
    let outcome = cache.link("A", &names(&["Mod", "Guest", "Mod"]), &guild_roles());
    assert_eq!(outcome, Ok(EditOutcome { roles: vec![1, 3], unknown_roles: vec![] }));
}

#[test]
fn link_reports_unknown_roles_and_applies_the_others() {
    let mut cache = two_invites();
    let outcome = cache.link("A", &names(&["Nope", "Member", "mod", "Guest"]), &guild_roles());
    assert_eq!(
        outcome,
        Ok(EditOutcome { roles: vec![2, 3], unknown_roles: names(&["Nope", "mod"]) })
    );
    assert_eq!(cache.get("A"), Some(InviteRecord::new("A", vec![2, 3], 4)));
}

#[test]
fn link_of_an_uncached_code_fails_and_changes_nothing() {
    let mut cache = two_invites();
    let before = cache.snapshot();
    let outcome = cache.link("C", &names(&["Mod"]), &guild_roles());
    assert_eq!(outcome, Err(EditError::InviteNotFound));
    assert_eq!(cache.snapshot(), before);
    assert!(!cache.contains("C"));
}

#[test]
fn link_succeeds_once_the_invite_was_announced() {
    let mut cache = InviteCache::new();
    assert_eq!(
        cache.link("new", &names(&["Mod"]), &guild_roles()),
        Err(EditError::InviteNotFound)
    );
    cache.on_invite_created("new");
    assert_eq!(
        cache.link("new", &names(&["Mod"]), &guild_roles()),
        Ok(EditOutcome { roles: vec![1], unknown_roles: vec![] })
    );
}

#[test]
fn link_without_role_names_succeeds_and_changes_nothing() {
    let mut cache = two_invites();
    let outcome = cache.link("B", &names(&[]), &guild_roles());
    assert_eq!(outcome, Ok(EditOutcome { roles: vec![2], unknown_roles: vec![] }));
    assert_eq!(cache.snapshot(), two_invites().snapshot());
}

#[test]
fn link_keeps_the_use_count_and_the_snapshot_order() {
    let mut cache = two_invites();
    cache.link("A", &names(&["Guest"]), &guild_roles()).unwrap();
    assert_eq!(
        cache.snapshot(),
        vec![InviteRecord::new("A", vec![3], 4), InviteRecord::new("B", vec![2], 7)]
    );
}

#[test]
fn link_of_one_code_leaves_the_other_codes_alone() {
    let mut cache = two_invites();
    cache.link("A", &names(&["Mod", "Member", "Guest"]), &guild_roles()).unwrap();
    assert_eq!(cache.get("B"), Some(InviteRecord::new("B", vec![2], 7)));
}

#[test]
fn links_of_different_codes_may_come_in_either_order() {
    let mut first = two_invites();
    first.link("A", &names(&["Mod"]), &guild_roles()).unwrap();
    first.link("B", &names(&["Guest"]), &guild_roles()).unwrap();
    first.unlink("A", &names(&["Member"]), &guild_roles()).unwrap();
    let mut second = two_invites();
    second.link("B", &names(&["Guest"]), &guild_roles()).unwrap();
    second.unlink("A", &names(&["Member"]), &guild_roles()).unwrap();
    second.link("A", &names(&["Mod"]), &guild_roles()).unwrap();
    assert_eq!(first.snapshot(), second.snapshot());
    assert_eq!(first.get("A"), Some(InviteRecord::new("A", vec![1], 4)));
    assert_eq!(first.get("B"), Some(InviteRecord::new("B", vec![2, 3], 7)));
}

#[test]
fn unlink_removes_the_named_roles() {
    let mut cache = InviteCache::new();
    cache.put(InviteRecord::new("A", vec![3, 1, 2], 5));
    let outcome = cache.unlink("A", &names(&["Mod", "Guest"]), &guild_roles());
    assert_eq!(outcome, Ok(EditOutcome { roles: vec![2], unknown_roles: vec![] }));
    assert_eq!(cache.get("A"), Some(InviteRecord::new("A", vec![2], 5)));
}

#[test]
fn unlink_of_a_role_that_is_not_linked_succeeds_and_changes_nothing() {
    let mut cache = two_invites();
    let outcome = cache.unlink("B", &names(&["Mod"]), &guild_roles());
    assert_eq!(outcome, Ok(EditOutcome { roles: vec![2], unknown_roles: vec![] }));
    assert_eq!(cache.snapshot(), two_invites().snapshot());
    let empty = cache.unlink("A", &names(&["Mod"]), &guild_roles());
    assert_eq!(empty, Ok(EditOutcome { roles: vec![], unknown_roles: vec![] }));
    assert_eq!(cache.snapshot(), two_invites().snapshot());
}

#[test]
fn unlink_reports_unknown_roles_and_applies_the_others() {
    let mut cache = InviteCache::new();
    cache.put(InviteRecord::new("A", vec![1, 2], 0));
    let outcome = cache.unlink("A", &names(&["Ghost", "Member"]), &guild_roles());
    assert_eq!(outcome, Ok(EditOutcome { roles: vec![1], unknown_roles: names(&["Ghost"]) }));
}

#[test]
fn unlink_of_an_uncached_code_fails_and_changes_nothing() {
    let mut cache = two_invites();
    let outcome = cache.unlink("Z", &names(&["Member"]), &guild_roles());
    assert_eq!(outcome, Err(EditError::InviteNotFound));
    assert_eq!(cache.snapshot(), two_invites().snapshot());
}

#[test]
fn unlink_takes_every_occurrence_of_a_role() {
    let mut cache = InviteCache::new();
    cache.put(InviteRecord::new("A", vec![2, 1, 2], 0));
    cache.unlink("A", &names(&["Member"]), &guild_roles()).unwrap();
    assert_eq!(cache.get("A"), Some(InviteRecord::new("A", vec![1], 0)));
}

#[test]
fn link_after_unlink_puts_the_role_at_the_end() {
    let mut cache = InviteCache::new();
    cache.put(InviteRecord::new("A", vec![1, 2, 3], 0));
    cache.unlink("A", &names(&["Mod"]), &guild_roles()).unwrap();
    cache.link("A", &names(&["Mod"]), &guild_roles()).unwrap();
    assert_eq!(cache.get("A"), Some(InviteRecord::new("A", vec![2, 3, 1], 0)));
}
