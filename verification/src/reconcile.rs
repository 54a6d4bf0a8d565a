//! The reconciler: the startup merge of what was persisted with what the
//! platform lists now.

use vstd::prelude::*;
use crate::cache::{codes_with, observed, InviteCache};
use crate::record::{
    copy_roles, live_views, persisted_views, Entry, InviteRecord, LiveInvite,
    LiveInviteView, PersistedInviteRoles, PersistedView, RoleId,
};
use crate::search::{
    first_at, last_at, lemma_first_at_exists, lemma_first_at_push, lemma_last_at_exists,
    lemma_last_at_push,
};

verus! {

/// The codes of the live invites, in list order.
pub open spec fn live_codes(live: Seq<LiveInviteView>) -> Seq<Seq<char>> {
    live.map_values(|invite: LiveInviteView| invite.code)
}

/// The codes of the persisted records, in list order.
pub open spec fn persisted_codes(persisted: Seq<PersistedView>) -> Seq<Seq<char>> {
    persisted.map_values(|record: PersistedView| record.code)
}

/// The use count that the platform reports for `code`: that of its first
/// listing. Meaningful where the live list names `code`.
pub open spec fn reported_uses(live: Seq<LiveInviteView>, code: Seq<char>) -> u64 {
    live[first_at(live_codes(live), code)].uses
}

/// The roles that the store carries forward for `code`: those of the last
/// record persisted for it, and none where no record was.
pub open spec fn carried_roles(persisted: Seq<PersistedView>, code: Seq<char>) -> Seq<RoleId> {
    if persisted_codes(persisted).contains(code) {
        persisted[last_at(persisted_codes(persisted), code)].roles
    } else {
        Seq::empty()
    }
}

/// The merged cache. The live list alone decides which codes exist and what
/// their use counts are; the persisted records decide nothing but the roles.
pub open spec fn reconciled(
    persisted: Seq<PersistedView>,
    live: Seq<LiveInviteView>,
) -> Map<Seq<char>, Entry> {
    Map::new(
        |code: Seq<char>| live_codes(live).contains(code),
        |code: Seq<char>|
            Entry { roles: carried_roles(persisted, code), uses: reported_uses(live, code) },
    )
}

/// The codes of a list without repeats, each at the place of its first
/// occurrence.
pub open spec fn first_listings(codes: Seq<Seq<char>>) -> Seq<Seq<char>>
    decreases codes.len(),
{
    if codes.len() == 0 {
        Seq::empty()
    } else {
        codes_with(first_listings(codes.drop_last()), codes.last())
    }
}

/// Who decides what: the live list alone decides which codes the merged
/// cache holds and with what use counts, whatever was persisted; the
/// persisted records alone decide the roles, whatever counts the platform
/// reports.
pub proof fn lemma_reconciled_tie_break(
    persisted: Seq<PersistedView>,
    other_persisted: Seq<PersistedView>,
    live: Seq<LiveInviteView>,
    other_live: Seq<LiveInviteView>,
    code: Seq<char>,
)
    ensures
        reconciled(persisted, live).contains_key(code) == live_codes(live).contains(code),
        reconciled(persisted, live).contains_key(code) ==> {
            &&& reconciled(persisted, live)[code].uses == reconciled(
                other_persisted,
                live,
            )[code].uses
            &&& live_codes(other_live).contains(code) ==> reconciled(persisted, live)[code].roles
                == reconciled(persisted, other_live)[code].roles
        },
        !persisted_codes(persisted).contains(code) ==> carried_roles(persisted, code)
            == Seq::<RoleId>::empty(),
{
}

/// Taking one more live invite into account is observing it.
proof fn lemma_reconciled_next_live(live: Seq<LiveInviteView>, next: int)
    requires
        0 <= next < live.len(),
    ensures
        reconciled(Seq::empty(), live.take(next + 1)) == observed(
            reconciled(Seq::empty(), live.take(next)),
            live[next].code,
            live[next].uses,
        ),
        first_listings(live_codes(live.take(next + 1))) == codes_with(
            first_listings(live_codes(live.take(next))),
            live[next].code,
        ),
{
    let nothing = Seq::<PersistedView>::empty();
    let before = live.take(next);
    let after = live.take(next + 1);
    let invite = live[next];
    assert(live_codes(after) =~= live_codes(before).push(invite.code));
    assert(live_codes(after).drop_last() =~= live_codes(before));
    let goal = observed(reconciled(nothing, before), invite.code, invite.uses);
    assert forall|code: Seq<char>| #[trigger]
        reconciled(nothing, after).contains_key(code) == goal.contains_key(code) by {
        lemma_first_at_push(live_codes(before), code, invite.code);
    }
    assert forall|code: Seq<char>| #[trigger]
        reconciled(nothing, after).contains_key(code) implies reconciled(nothing, after)[code]
        == goal[code] by {
        lemma_first_at_push(live_codes(before), code, invite.code);
        if live_codes(before).contains(code) {
            lemma_first_at_exists(live_codes(before), code);
        }
    }
}

/// Taking one more persisted record into account replaces the roles of its
/// code, where the platform lists that code, and changes nothing else.
proof fn lemma_reconciled_next_persisted(
    persisted: Seq<PersistedView>,
    live: Seq<LiveInviteView>,
    next: int,
)
    requires
        0 <= next < persisted.len(),
    ensures
        ({
            let before = reconciled(persisted.take(next), live);
            let record = persisted[next];
            reconciled(persisted.take(next + 1), live) == if before.contains_key(record.code) {
                before.insert(
                    record.code,
                    Entry { roles: record.roles, uses: before[record.code].uses },
                )
            } else {
                before
            }
        }),
{
    let earlier = persisted.take(next);
    let later = persisted.take(next + 1);
    let record = persisted[next];
    let before = reconciled(earlier, live);
    let after = reconciled(later, live);
    assert(persisted_codes(later) =~= persisted_codes(earlier).push(record.code));
    let goal = if before.contains_key(record.code) {
        before.insert(
            record.code,
            Entry { roles: record.roles, uses: before[record.code].uses },
        )
    } else {
        before
    };
    assert forall|code: Seq<char>| #[trigger] after.contains_key(code) implies after[code]
        == goal[code] by {
        lemma_last_at_push(persisted_codes(earlier), code, record.code);
        if code != record.code && persisted_codes(earlier).contains(code) {
            lemma_last_at_exists(persisted_codes(earlier), code);
        }
    }
}

/// Merges the persisted associations with the platform's live invite list
/// into the cache that the process starts with.
///
/// Every code of the live list is cached with the use count of its first
/// listing. A persisted record whose code is live hands its roles on; one
/// whose code is not live is dropped. A live code without a persisted record
/// starts with no roles.
pub fn reconcile(persisted: &Vec<PersistedInviteRoles>, live: &Vec<LiveInvite>) -> (cache:
    InviteCache)
    ensures
        cache@ == reconciled(persisted_views(persisted@), live_views(live@)),
        cache.codes() == first_listings(live_codes(live_views(live@))),
        forall|code: Seq<char>|
            cache@.contains_key(code) <==> live_codes(live_views(live@)).contains(code),
{
    let ghost stored = persisted_views(persisted@);
    let ghost listed = live_views(live@);
    let mut cache = InviteCache::new();
    let mut next: usize = 0;
    while next < live.len()
        invariant
            next <= live.len(),
            listed == live_views(live@),
            cache@ == reconciled(Seq::empty(), listed.take(next as int)),
            cache.codes() == first_listings(live_codes(listed.take(next as int))),
        decreases live.len() - next,
    {
        proof {
            lemma_reconciled_next_live(listed, next as int);
        }
        cache.observe(live[next].code.as_str(), live[next].uses);
        next += 1;
    }
    proof {
        assert(listed.take(listed.len() as int) =~= listed);
    }
    let mut done: usize = 0;
    while done < persisted.len()
        invariant
            done <= persisted.len(),
            stored == persisted_views(persisted@),
            cache@ == reconciled(stored.take(done as int), listed),
            cache.codes() == first_listings(live_codes(listed)),
        decreases persisted.len() - done,
    {
        proof {
            lemma_reconciled_next_persisted(stored, listed, done as int);
        }
        let record = &persisted[done];
        if let Some(found) = cache.get(record.code.as_str()) {
            let roles = copy_roles(&record.roles);
            cache.put(InviteRecord { code: found.code, roles, uses: found.uses });
        }
        done += 1;
    }
    proof {
        assert(stored.take(stored.len() as int) =~= stored);
    }
    cache
}

} // verus!
