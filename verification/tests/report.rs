use invite_tracker::cache::InviteCache;
use invite_tracker::directory::{GuildRole, RoleDirectory};
use invite_tracker::record::InviteRecord;
use invite_tracker::report::{render_report, ListedRole, ReportLine};

fn guild_roles() -> RoleDirectory {
    RoleDirectory::new(vec![GuildRole::new(1, "Mod"), GuildRole::new(2, "Member")])
}

fn named(id: u64, name: &str) -> ListedRole {
    ListedRole { id, name: Some(name.to_string()) }
}

#[test]
fn list_names_the_roles_and_gives_the_use_counts() {
    let mut cache = InviteCache::new();
    cache.put(InviteRecord::new("abc", vec![2, 1], 3));
    cache.put(InviteRecord::new("xyz", vec![], 0));
    assert_eq!(
        cache.list(&guild_roles()),
        vec![
            ReportLine {
                code: "abc".to_string(),
                uses: 3,
                roles: vec![named(2, "Member"), named(1, "Mod")],
            },
            ReportLine { code: "xyz".to_string(), uses: 0, roles: vec![] },
        ]
    );
}

#[test]
fn list_keeps_a_role_that_the_guild_no_longer_has() {
    let mut cache = InviteCache::new();
    cache.put(InviteRecord::new("abc", vec![9, 1], 3));
    assert_eq!(
        cache.list(&guild_roles()),
        vec![ReportLine {
            code: "abc".to_string(),
            uses: 3,
            roles: vec![ListedRole { id: 9, name: None }, named(1, "Mod")],
        }]
    );
}

#[test]
fn list_of_an_empty_cache_is_empty() {
    assert_eq!(InviteCache::new().list(&guild_roles()), vec![]);
}

#[test]
fn the_message_of_an_empty_report_is_the_heading() {
    assert_eq!(render_report(&vec![]), "**Active invites:**\n");
}

#[test]
fn the_message_has_one_line_for_each_invite() {
    let lines = vec![
        ReportLine {
            code: "abc".to_string(),
            uses: 3,
            roles: vec![named(2, "Member"), named(1, "Mod")],
        },
        ReportLine { code: "xyz".to_string(), uses: 0, roles: vec![] },
        ReportLine { code: "q".to_string(), uses: 120, roles: vec![named(1, "Mod")] },
    ];
    assert_eq!(
        render_report(&lines),
        "**Active invites:**\nabc (3 uses): Member, Mod\nxyz (0 uses): \nq (120 uses): Mod\n"
    );
}

#[test]
fn the_message_shows_a_role_without_name_by_its_id() {
    let lines = vec![ReportLine {
        code: "abc".to_string(),
        uses: 1,
        roles: vec![
            ListedRole { id: 81384788765712384, name: None },
            named(1, "Mod"),
            ListedRole { id: 0, name: None },
        ],
    }];
    assert_eq!(
        render_report(&lines),
        "**Active invites:**\nabc (1 uses): 81384788765712384, Mod, 0\n"
    );
}

#[test]
fn the_message_shows_the_largest_count_in_full() {
    let lines = vec![ReportLine { code: "big".to_string(), uses: u64::MAX, roles: vec![] }];
    assert_eq!(render_report(&lines), "**Active invites:**\nbig (18446744073709551615 uses): \n");
}

#[test]
fn the_message_passes_names_on_as_they_are() {
    let lines = vec![ReportLine {
        code: "discord.gg/abc".to_string(),
        uses: 10,
        roles: vec![named(1, "**bold** @everyone"), named(2, "a, b")],
    }];
    assert_eq!(
        render_report(&lines),
        "**Active invites:**\ndiscord.gg/abc (10 uses): **bold** @everyone, a, b\n"
    );
}

#[test]
fn the_message_of_a_cache_is_the_message_of_its_list() {
    let mut cache = InviteCache::new();
    cache.put(InviteRecord::new("abc", vec![1, 7], 42));
    let text = render_report(&cache.list(&guild_roles()));
    assert_eq!(text, "**Active invites:**\nabc (42 uses): Mod, 7\n");
}
