//! The join resolver: which invite a new member came through, told from the
//! use counts alone.

use vstd::prelude::*;
use crate::cache::{uses_never_fall, InviteCache};
use crate::record::{
    copy_roles, live_views, Entry, InviteRecord, LiveInvite, LiveInviteView, RoleId,
};

verus! {

/// The invite that a join was attributed to, and what the member is owed.
#[derive(Debug, PartialEq, Eq)]
pub struct JoinGrant {
    /// The code of the invite that was consumed.
    pub code: String,
    /// The roles linked to that invite, all of which the member is granted.
    pub roles: Vec<RoleId>,
    /// The use count that the platform reports for the invite, now cached.
    pub uses: u64,
}

/// The platform reports more uses of the invite than the cache knows of.
/// An invite that the cache does not hold shows nothing.
pub open spec fn shows_increase(
    cache: Map<Seq<char>, Entry>,
    invite: LiveInviteView,
) -> bool {
    cache.contains_key(invite.code) && invite.uses > cache[invite.code].uses
}

/// Some invite of the live list shows an increase.
pub open spec fn any_increase(
    cache: Map<Seq<char>, Entry>,
    live: Seq<LiveInviteView>,
) -> bool {
    exists|at: int| 0 <= at < live.len() && shows_increase(cache, #[trigger] live[at])
}

/// `at` is the place of the first invite of the live list that shows an
/// increase: the invite that is taken as the one consumed.
pub open spec fn is_consumed_at(
    cache: Map<Seq<char>, Entry>,
    live: Seq<LiveInviteView>,
    at: int,
) -> bool {
    &&& 0 <= at < live.len()
    &&& shows_increase(cache, live[at])
    &&& forall|earlier: int| 0 <= earlier < at ==> !shows_increase(cache, #[trigger] live[earlier])
}

/// The place of the invite that is taken as the one consumed. Meaningful
/// where some invite shows an increase.
pub open spec fn consumed_at(cache: Map<Seq<char>, Entry>, live: Seq<LiveInviteView>) -> int {
    choose|at: int| is_consumed_at(cache, live, at)
}

/// The cache after a join has been resolved against `live`: the consumed
/// invite takes the use count that the platform reports and keeps its roles;
/// where no invite shows an increase, nothing changes.
pub open spec fn after_join(
    cache: Map<Seq<char>, Entry>,
    live: Seq<LiveInviteView>,
) -> Map<Seq<char>, Entry> {
    if any_increase(cache, live) {
        let invite = live[consumed_at(cache, live)];
        cache.insert(
            invite.code,
            Entry { roles: cache[invite.code].roles, uses: invite.uses },
        )
    } else {
        cache
    }
}

/// At most one place is the first to show an increase.
pub proof fn lemma_consumed_at_is(
    cache: Map<Seq<char>, Entry>,
    live: Seq<LiveInviteView>,
    at: int,
)
    requires
        is_consumed_at(cache, live, at),
    ensures
        any_increase(cache, live),
        consumed_at(cache, live) == at,
{
}

/// Resolving a join changes one entry at most, lowers no use count, and
/// changes no roles. Where no invite shows an increase, it changes nothing;
/// where one does, the consumed invite is the first that does.
pub proof fn lemma_join_changes_one_count(
    cache: Map<Seq<char>, Entry>,
    live: Seq<LiveInviteView>,
)
    ensures
        any_increase(cache, live) ==> is_consumed_at(cache, live, consumed_at(cache, live)),
        after_join(cache, live).dom() == cache.dom(),
        uses_never_fall(cache, after_join(cache, live)),
        forall|code: Seq<char>|
            cache.contains_key(code) ==> (#[trigger] after_join(cache, live)[code]).roles
                == cache[code].roles,
        !any_increase(cache, live) ==> after_join(cache, live) == cache,
        any_increase(cache, live) ==> forall|code: Seq<char>|
            code != live[consumed_at(cache, live)].code ==> #[trigger] after_join(cache, live)[code]
                == cache[code],
{
    if any_increase(cache, live) {
        let found = choose|at: int|
            0 <= at < live.len() && shows_increase(cache, #[trigger] live[at]);
        lemma_first_increase_exists(cache, live, found);
    }
}

/// Where the invite at `found` shows an increase, one of the invites up to
/// there is the first to.
proof fn lemma_first_increase_exists(
    cache: Map<Seq<char>, Entry>,
    live: Seq<LiveInviteView>,
    found: int,
)
    requires
        0 <= found < live.len(),
        shows_increase(cache, live[found]),
    ensures
        is_consumed_at(cache, live, consumed_at(cache, live)),
    decreases found,
{
    if exists|earlier: int|
        0 <= earlier < found && shows_increase(cache, #[trigger] live[earlier]) {
        let earlier = choose|earlier: int|
            0 <= earlier < found && shows_increase(cache, #[trigger] live[earlier]);
        lemma_first_increase_exists(cache, live, earlier);
    } else {
        assert(is_consumed_at(cache, live, found));
    }
}

impl InviteCache {
    /// Resolves one member join against the platform's current invite list.
    ///
    /// The first invite of `live`, in list order, whose reported use count
    /// exceeds the cached one is taken as the invite that was consumed: its
    /// cached roles are granted, and the cache takes over the reported count.
    /// Where no invite shows an increase, no role is granted and the cache is
    /// left as it was.
    pub fn resolve_join(&mut self, live: &Vec<LiveInvite>) -> (grant: Option<JoinGrant>)
        ensures
            final(self)@ == after_join(old(self)@, live_views(live@)),
            final(self).codes() == old(self).codes(),
            grant is Some <==> any_increase(old(self)@, live_views(live@)),
            grant is None ==> final(self)@ == old(self)@,
            grant matches Some(granted) ==> {
                let invite = live_views(live@)[consumed_at(old(self)@, live_views(live@))];
                &&& granted.code@ == invite.code
                &&& granted.roles@ == old(self)@[invite.code].roles
                &&& granted.uses == invite.uses
            },
    {
        let ghost listed = live_views(live@);
        let mut at: usize = 0;
        while at < live.len()
            invariant
                at <= live.len(),
                listed == live_views(live@),
                self@ == old(self)@,
                self.codes() == old(self).codes(),
                forall|earlier: int|
                    0 <= earlier < at ==> !shows_increase(old(self)@, #[trigger] listed[earlier]),
            decreases live.len() - at,
        {
            let invite = &live[at];
            if let Some(record) = self.get(invite.code.as_str()) {
                if invite.uses > record.uses {
                    proof {
                        lemma_consumed_at_is(old(self)@, listed, at as int);
                    }
                    let roles = copy_roles(&record.roles);
                    self.put(
                        InviteRecord { code: record.code, roles: record.roles, uses: invite.uses },
                    );
                    return Some(JoinGrant { code: invite.code.clone(), roles, uses: invite.uses });
                }
            }
            at += 1;
        }
        None
    }
}

} // verus!
