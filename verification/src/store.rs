//! What the persistent store holds: the cache without its use counts.

use vstd::prelude::*;
use crate::cache::{records_in_order, InviteCache};
use crate::reconcile::{live_codes, persisted_codes, reconciled};
use crate::record::{
    copy_roles, persisted_views, record_views, Entry, LiveInviteView,
    PersistedInviteRoles, PersistedView,
};
use crate::search::{lemma_first_at_exists, lemma_last_at_exists};

verus! {

/// Why the persisted records could not be loaded.
#[derive(Debug, Clone, Copy, PartialEq, Eq)]
pub enum StoreError {
    /// The backing file is absent. The process can go on with no records.
    NotFound,
    /// The backing file cannot be read as a list of records. The process must
    /// not go on.
    Malformed,
}

/// The `{code, roles}` pairs of `cache` in the order of `codes`.
pub open spec fn projection(
    cache: Map<Seq<char>, Entry>,
    codes: Seq<Seq<char>>,
) -> Seq<PersistedView> {
    codes.map_values(|code: Seq<char>| PersistedView { code, roles: cache[code].roles })
}

/// `stored` holds the `{code, roles}` pairs of `cache` and no others, in
/// whatever order and however often.
pub open spec fn holds_pairs_of(
    stored: Seq<PersistedView>,
    cache: Map<Seq<char>, Entry>,
) -> bool {
    &&& forall|code: Seq<char>|
        cache.contains_key(code) <==> persisted_codes(stored).contains(code)
    &&& forall|i: int|
        0 <= i < stored.len() ==> (#[trigger] stored[i]).roles == cache[stored[i].code].roles
}

/// `live` lists the codes of `cache` and no others, each with the use count
/// that the cache has for it.
pub open spec fn lists_codes_of(
    live: Seq<LiveInviteView>,
    cache: Map<Seq<char>, Entry>,
) -> bool {
    &&& forall|code: Seq<char>| cache.contains_key(code) <==> live_codes(live).contains(code)
    &&& forall|i: int|
        0 <= i < live.len() ==> (#[trigger] live[i]).uses == cache[live[i].code].uses
}

/// What a sync writes holds the pairs of the cache and no others.
pub proof fn lemma_projection_holds_pairs(
    cache: Map<Seq<char>, Entry>,
    codes: Seq<Seq<char>>,
)
    requires
        forall|code: Seq<char>| cache.contains_key(code) <==> codes.contains(code),
    ensures
        holds_pairs_of(projection(cache, codes), cache),
{
    assert(persisted_codes(projection(cache, codes)) =~= codes);
}

impl InviteCache {
    /// The records that a sync writes to the persistent store: one
    /// `{code, roles}` pair for each cached invite, in snapshot order.
    pub fn to_persisted(&self) -> (records: Vec<PersistedInviteRoles>)
        ensures
            persisted_views(records@) == projection(self@, self.codes()),
            holds_pairs_of(persisted_views(records@), self@),
    {
        let snapshot = self.snapshot();
        proof {
            lemma_projection_holds_pairs(self@, self.codes());
        }
        let ghost listed = records_in_order(self@, self.codes());
        let mut records: Vec<PersistedInviteRoles> = Vec::new();
        let mut next: usize = 0;
        while next < snapshot.len()
            invariant
                next <= snapshot.len(),
                record_views(snapshot@) == listed,
                records@.len() == next,
                forall|i: int|
                    0 <= i < next ==> (#[trigger] records@[i])@ == (PersistedView {
                        code: listed[i].code,
                        roles: listed[i].roles,
                    }),
            decreases snapshot.len() - next,
        {
            let record = &snapshot[next];
            let roles = copy_roles(&record.roles);
            records.push(PersistedInviteRoles { code: record.code.clone(), roles });
            next += 1;
        }
        assert(listed.len() == snapshot@.len());
        assert(persisted_views(records@) =~= projection(self@, self.codes()));
        records
    }
}

/// A store that holds the pairs of the cache restores the cache at the next
/// start, whatever the order of its records, as long as the platform still
/// lists the same invites with the same use counts: every code comes back
/// with the roles it had.
pub proof fn lemma_store_restores_cache(
    cache: Map<Seq<char>, Entry>,
    stored: Seq<PersistedView>,
    live: Seq<LiveInviteView>,
)
    requires
        holds_pairs_of(stored, cache),
        lists_codes_of(live, cache),
    ensures
        reconciled(stored, live) == cache,
{
    let merged = reconciled(stored, live);
    assert forall|code: Seq<char>| #[trigger] merged.contains_key(code) implies merged[code]
        == cache[code] by {
        lemma_first_at_exists(live_codes(live), code);
        lemma_last_at_exists(persisted_codes(stored), code);
    }
}

} // verus!
