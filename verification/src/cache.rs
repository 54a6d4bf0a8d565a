//! The invite cache: the single runtime source of truth that maps an invite
//! code to the roles it grants and to its use count.
//!
//! The cache owns its records. Callers get copies and never see the store
//! itself. Every operation takes the cache by `&self` or `&mut self`, so a
//! lock around one cache value gives many readers or one writer at a time,
//! and no reader can see a half-written record.

use vstd::prelude::*;
use crate::record::{record_views, Entry, InviteRecord, InviteRecordView};

verus! {

/// No two records of `entries` carry the same code.
spec fn distinct_codes(entries: Seq<InviteRecord>) -> bool {
    forall|i: int, j: int| 0 <= i < j < entries.len() ==> entries[i].code@ != entries[j].code@
}

/// `slot` is a place in `entries` whose record carries `code`.
spec fn is_slot(entries: Seq<InviteRecord>, code: Seq<char>, slot: int) -> bool {
    0 <= slot < entries.len() && entries[slot].code@ == code
}

/// Some record of `entries` carries `code`.
spec fn holds(entries: Seq<InviteRecord>, code: Seq<char>) -> bool {
    exists|slot: int| is_slot(entries, code, slot)
}

/// A place in `entries` whose record carries `code`, if there is one.
spec fn slot_of(entries: Seq<InviteRecord>, code: Seq<char>) -> int {
    choose|slot: int| is_slot(entries, code, slot)
}

/// The records as a map from code to entry.
spec fn as_map(entries: Seq<InviteRecord>) -> Map<Seq<char>, Entry> {
    Map::new(
        |code: Seq<char>| holds(entries, code),
        |code: Seq<char>| entries[slot_of(entries, code)]@.entry(),
    )
}

/// The codes of the records, in list order.
spec fn codes_of(entries: Seq<InviteRecord>) -> Seq<Seq<char>> {
    entries.map_values(|r: InviteRecord| r.code@)
}

/// With distinct codes, a record is found at its own place, and the map holds
/// its code with its entry.
proof fn lemma_slot_is_unique(entries: Seq<InviteRecord>, slot: int)
    requires
        distinct_codes(entries),
        0 <= slot < entries.len(),
    ensures
        holds(entries, entries[slot].code@),
        slot_of(entries, entries[slot].code@) == slot,
        as_map(entries).contains_key(entries[slot].code@),
        as_map(entries)[entries[slot].code@] == entries[slot]@.entry(),
{
    assert(is_slot(entries, entries[slot].code@, slot));
}

/// With distinct codes, the list of codes has no repeats and names exactly
/// the codes of the map.
proof fn lemma_codes_match_map(entries: Seq<InviteRecord>)
    requires
        distinct_codes(entries),
    ensures
        codes_of(entries).no_duplicates(),
        forall|code: Seq<char>|
            as_map(entries).contains_key(code) <==> codes_of(entries).contains(code),
{
    let codes = codes_of(entries);
    assert forall|code: Seq<char>| as_map(entries).contains_key(code) implies codes.contains(
        code,
    ) by {
        let slot = slot_of(entries, code);
        assert(codes[slot] == code);
    }
    assert forall|code: Seq<char>| codes.contains(code) implies as_map(entries).contains_key(
        code,
    ) by {
        let slot = choose|slot: int| 0 <= slot < codes.len() && codes[slot] == code;
        assert(is_slot(entries, code, slot));
    }
}

/// With distinct codes, the map has as many codes as there are records.
proof fn lemma_count_matches_map(entries: Seq<InviteRecord>)
    requires
        distinct_codes(entries),
    ensures
        as_map(entries).dom().finite(),
        as_map(entries).len() == entries.len(),
{
    lemma_codes_match_map(entries);
    let codes = codes_of(entries);
    assert(as_map(entries).dom() =~= codes.to_set());
    codes.unique_seq_to_set();
    vstd::seq_lib::seq_to_set_is_finite(codes);
}

/// A record with a new code, put at the end, is an insertion into the map.
proof fn lemma_push_entry(entries: Seq<InviteRecord>, record: InviteRecord)
    requires
        distinct_codes(entries),
        !holds(entries, record.code@),
    ensures
        distinct_codes(entries.push(record)),
        as_map(entries.push(record)) == as_map(entries).insert(
            record.code@,
            record@.entry(),
        ),
        codes_of(entries.push(record)) == codes_of(entries).push(record.code@),
{
    let after = entries.push(record);
    assert forall|i: int, j: int| 0 <= i < j < after.len() implies after[i].code@
        != after[j].code@ by {
        if j == entries.len() {
            assert(!is_slot(entries, record.code@, i));
        }
    }
    let goal = as_map(entries).insert(record.code@, record@.entry());
    assert forall|code: Seq<char>| #[trigger]
        goal.contains_key(code) implies as_map(after).contains_key(code) by {
        if code == record.code@ {
            assert(is_slot(after, code, entries.len() as int));
        } else {
            let slot = slot_of(entries, code);
            assert(is_slot(after, code, slot));
        }
    }
    assert forall|code: Seq<char>| #[trigger]
        as_map(after).contains_key(code) implies goal.contains_key(code) && as_map(after)[code]
        == goal[code] by {
        let slot = slot_of(after, code);
        lemma_slot_is_unique(after, slot);
        if slot < entries.len() {
            lemma_slot_is_unique(entries, slot);
        }
    }
}

/// A record that takes the place of one with the same code is an insertion
/// into the map, and leaves the order of the codes alone.
proof fn lemma_replace_entry(entries: Seq<InviteRecord>, slot: int, record: InviteRecord)
    requires
        distinct_codes(entries),
        0 <= slot < entries.len(),
        entries[slot].code@ == record.code@,
    ensures
        distinct_codes(entries.update(slot, record)),
        as_map(entries.update(slot, record)) == as_map(entries).insert(
            record.code@,
            record@.entry(),
        ),
        codes_of(entries.update(slot, record)) == codes_of(entries),
{
    let after = entries.update(slot, record);
    let goal = as_map(entries).insert(record.code@, record@.entry());
    assert forall|code: Seq<char>| #[trigger]
        goal.contains_key(code) implies as_map(after).contains_key(code) by {
        if code == record.code@ {
            assert(is_slot(after, code, slot));
        } else {
            let at = slot_of(entries, code);
            assert(is_slot(after, code, at));
        }
    }
    assert forall|code: Seq<char>| #[trigger]
        as_map(after).contains_key(code) implies goal.contains_key(code) && as_map(after)[code]
        == goal[code] by {
        let at = slot_of(after, code);
        lemma_slot_is_unique(after, at);
        lemma_slot_is_unique(entries, at);
    }
}

/// A record taken out is a removal from the map.
proof fn lemma_remove_entry(entries: Seq<InviteRecord>, slot: int)
    requires
        distinct_codes(entries),
        0 <= slot < entries.len(),
    ensures
        distinct_codes(entries.remove(slot)),
        as_map(entries.remove(slot)) == as_map(entries).remove(entries[slot].code@),
        codes_of(entries.remove(slot)) == codes_of(entries).remove(slot),
{
    let after = entries.remove(slot);
    let gone = entries[slot].code@;
    let goal = as_map(entries).remove(gone);
    assert forall|code: Seq<char>| #[trigger]
        goal.contains_key(code) implies as_map(after).contains_key(code) by {
        let at = slot_of(entries, code);
        let moved = if at < slot { at } else { at - 1 };
        assert(is_slot(after, code, moved));
    }
    assert forall|code: Seq<char>| #[trigger]
        as_map(after).contains_key(code) implies goal.contains_key(code) && as_map(after)[code]
        == goal[code] by {
        let at = slot_of(after, code);
        lemma_slot_is_unique(after, at);
        let from = if at < slot { at } else { at + 1 };
        lemma_slot_is_unique(entries, from);
        if code == gone {
            lemma_slot_is_unique(entries, slot);
        }
    }
}

/// `existing` is what a lookup of `code` in `cache` hands out: a copy of the
/// record stored under `code`, or nothing where the code is not cached.
pub open spec fn is_lookup(
    cache: Map<Seq<char>, Entry>,
    code: Seq<char>,
    existing: Option<InviteRecord>,
) -> bool {
    match existing {
        Some(record) => cache.contains_key(code) && record@.code == code
            && record@.entry() == cache[code],
        None => !cache.contains_key(code),
    }
}

/// The cache after the platform has shown `code` with the use count `uses`:
/// a code that is there already keeps its entry, a new one starts without
/// roles.
pub open spec fn observed(
    cache: Map<Seq<char>, Entry>,
    code: Seq<char>,
    uses: u64,
) -> Map<Seq<char>, Entry> {
    if cache.contains_key(code) {
        cache
    } else {
        cache.insert(code, Entry { roles: Seq::empty(), uses })
    }
}

/// No code that `before` and `after` both hold has fewer uses in `after`.
pub open spec fn uses_never_fall(
    before: Map<Seq<char>, Entry>,
    after: Map<Seq<char>, Entry>,
) -> bool {
    forall|code: Seq<char>|
        before.contains_key(code) && after.contains_key(code) ==> before[code].uses
            <= #[trigger] after[code].uses
}

/// Observing a code twice is observing it once, whatever the second use
/// count: a code that is cached keeps its roles and its use count.
pub proof fn lemma_observed_once(
    cache: Map<Seq<char>, Entry>,
    code: Seq<char>,
    first: u64,
    second: u64,
)
    ensures
        observed(observed(cache, code, first), code, second) == observed(cache, code, first),
        cache.contains_key(code) ==> observed(cache, code, first) == cache,
        uses_never_fall(cache, observed(cache, code, first)),
{
}

/// The records of `cache` in the order of `codes`.
pub open spec fn records_in_order(
    cache: Map<Seq<char>, Entry>,
    codes: Seq<Seq<char>>,
) -> Seq<InviteRecordView> {
    codes.map_values(
        |code: Seq<char>|
            InviteRecordView { code, roles: cache[code].roles, uses: cache[code].uses },
    )
}

/// The codes after `code` has been stored: it keeps its place where it was
/// cached before, and goes to the end where it was not.
pub open spec fn codes_with(codes: Seq<Seq<char>>, code: Seq<char>) -> Seq<Seq<char>> {
    if codes.contains(code) {
        codes
    } else {
        codes.push(code)
    }
}

/// The codes after `code` has been dropped: the others keep their order.
pub open spec fn codes_without(codes: Seq<Seq<char>>, code: Seq<char>) -> Seq<Seq<char>> {
    codes.filter(|c: Seq<char>| c != code)
}

/// A mapping from invite code to the roles the invite grants and its use
/// count, with each code stored once. It is the one value that readers and
/// writers share: behind a read-write lock, the `&self` operations are the
/// readers' and the `&mut self` operations are the writers'.
#[derive(Debug)]
pub struct InviteCache {
    entries: Vec<InviteRecord>,
}

impl View for InviteCache {
    type V = Map<Seq<char>, Entry>;

    closed spec fn view(&self) -> Map<Seq<char>, Entry> {
        as_map(self.entries@)
    }
}

impl InviteCache {
    #[verifier::type_invariant]
    spec fn well_formed(&self) -> bool {
        distinct_codes(self.entries@)
    }

    /// The cached codes in the order in which a snapshot lists them: the
    /// order in which they were first stored.
    pub closed spec fn codes(&self) -> Seq<Seq<char>> {
        codes_of(self.entries@)
    }

    /// An empty cache.
    pub fn new() -> (cache: Self)
        ensures
            cache@ == Map::<Seq<char>, Entry>::empty(),
            cache.codes() == Seq::<Seq<char>>::empty(),
    {
        InviteCache { entries: Vec::new() }
    }

    /// The place of `code` among the entries.
    fn position(&self, code: &String) -> (found: Option<usize>)
        ensures
            match found {
                Some(slot) => is_slot(self.entries@, code@, slot as int),
                None => !holds(self.entries@, code@),
            },
    {
        let mut slot: usize = 0;
        while slot < self.entries.len()
            invariant
                slot <= self.entries.len(),
                forall|earlier: int|
                    0 <= earlier < slot ==> !is_slot(self.entries@, code@, earlier),
            decreases self.entries.len() - slot,
        {
            if self.entries[slot].code == *code {
                return Some(slot);
            }
            slot += 1;
        }
        None
    }

    /// How many codes the cache holds.
    pub fn len(&self) -> (count: usize)
        ensures
            self@.dom().finite(),
            count == self@.len(),
            count == self.codes().len(),
    {
        proof {
            use_type_invariant(self);
            lemma_count_matches_map(self.entries@);
        }
        self.entries.len()
    }

    /// Whether the cache holds no code.
    pub fn is_empty(&self) -> (empty: bool)
        ensures
            empty == (self@.len() == 0),
            empty == (self.codes().len() == 0),
    {
        proof {
            use_type_invariant(self);
            lemma_count_matches_map(self.entries@);
        }
        self.entries.len() == 0
    }

    /// Whether the cache holds `code`.
    pub fn contains(&self, code: &str) -> (present: bool)
        ensures
            present == self@.contains_key(code@),
            present == self.codes().contains(code@),
    {
        proof {
            use_type_invariant(self);
            lemma_codes_match_map(self.entries@);
        }
        let key = code.to_owned();
        self.position(&key).is_some()
    }

    /// A copy of the record stored under `code`.
    pub fn get(&self, code: &str) -> (found: Option<InviteRecord>)
        ensures
            is_lookup(self@, code@, found),
            found is Some == self.codes().contains(code@),
    {
        proof {
            use_type_invariant(self);
            lemma_codes_match_map(self.entries@);
        }
        let key = code.to_owned();
        match self.position(&key) {
            Some(slot) => {
                proof {
                    lemma_slot_is_unique(self.entries@, slot as int);
                }
                Some(self.entries[slot].clone())
            },
            None => None,
        }
    }

    /// Stores `record` under its code. A record already stored under that code
    /// is replaced and keeps its place; a new code goes to the end.
    pub fn put(&mut self, record: InviteRecord)
        ensures
            final(self)@ == old(self)@.insert(record@.code, record@.entry()),
            final(self).codes() == codes_with(old(self).codes(), record@.code),
    {
        proof {
            use_type_invariant(&*self);
            lemma_codes_match_map(self.entries@);
        }
        let found = self.position(&record.code);
        let mut entries: Vec<InviteRecord> = Vec::new();
        std::mem::swap(&mut entries, &mut self.entries);
        match found {
            Some(slot) => {
                proof {
                    lemma_replace_entry(entries@, slot as int, record);
                }
                entries.set(slot, record);
            },
            None => {
                proof {
                    lemma_push_entry(entries@, record);
                }
                entries.push(record);
            },
        }
        self.entries = entries;
    }

    /// Caches `code` with no roles and the use count `uses`, unless the code
    /// is cached already: then nothing changes.
    pub fn observe(&mut self, code: &str, uses: u64)
        ensures
            final(self)@ == observed(old(self)@, code@, uses),
            final(self).codes() == codes_with(old(self).codes(), code@),
    {
        if !self.contains(code) {
            self.put(InviteRecord::new(code, Vec::new(), uses));
        }
    }

    /// Reads the entry of `code`, hands it to `update`, and stores what
    /// `update` returns under `code`, in one step. The code of the returned
    /// record is not consulted: the entry is stored under `code`.
    pub fn upsert<F>(&mut self, code: &str, update: F) where
        F: FnOnce(Option<InviteRecord>) -> InviteRecord,

        requires
            forall|existing: Option<InviteRecord>|
                is_lookup(old(self)@, code@, existing) ==> update.requires((existing,)),
        ensures
            exists|existing: Option<InviteRecord>, updated: InviteRecord|
                is_lookup(old(self)@, code@, existing) && update.ensures((existing,), updated)
                    && final(self)@ == old(self)@.insert(code@, updated@.entry()),
            final(self).codes() == codes_with(old(self).codes(), code@),
    {
        let existing = self.get(code);
        let updated = update(existing);
        self.put(InviteRecord { code: code.to_owned(), roles: updated.roles, uses: updated.uses });
    }

    /// Drops the entry of `code`. Nothing happens where the code is not cached.
    pub fn remove(&mut self, code: &str)
        ensures
            final(self)@ == old(self)@.remove(code@),
            final(self).codes() == codes_without(old(self).codes(), code@),
    {
        proof {
            use_type_invariant(&*self);
        }
        let key = code.to_owned();
        let found = self.position(&key);
        match found {
            Some(slot) => {
                let mut entries: Vec<InviteRecord> = Vec::new();
                std::mem::swap(&mut entries, &mut self.entries);
                proof {
                    lemma_remove_entry(entries@, slot as int);
                    lemma_filter_out_unique(codes_of(entries@), slot as int);
                    lemma_codes_match_map(entries@);
                }
                let _ = entries.remove(slot);
                self.entries = entries;
            },
            None => {
                proof {
                    lemma_codes_match_map(self.entries@);
                    lemma_filter_out_absent(codes_of(self.entries@), code@);
                }
            },
        }
    }

    /// Copies of all records, in the order of [`InviteCache::codes`]. No code
    /// occurs twice in that order, and it names exactly the codes of the cache.
    pub fn snapshot(&self) -> (records: Vec<InviteRecord>)
        ensures
            record_views(records@) == records_in_order(self@, self.codes()),
            self.codes().no_duplicates(),
            forall|code: Seq<char>| self@.contains_key(code) <==> self.codes().contains(code),
    {
        proof {
            use_type_invariant(self);
            lemma_codes_match_map(self.entries@);
        }
        let mut records: Vec<InviteRecord> = Vec::new();
        let mut next: usize = 0;
        while next < self.entries.len()
            invariant
                next <= self.entries.len(),
                records@.len() == next,
                distinct_codes(self.entries@),
                forall|i: int| 0 <= i < next ==> (#[trigger] records@[i])@ == self.entries@[i]@,
            decreases self.entries.len() - next,
        {
            records.push(self.entries[next].clone());
            next += 1;
        }
        proof {
            let listed = records_in_order(self@, self.codes());
            assert forall|i: int| 0 <= i < listed.len() implies record_views(records@)[i]
                == listed[i] by {
                lemma_slot_is_unique(self.entries@, i);
            }
        }
        records
    }
}

/// Filtering one value out of a list without duplicates removes its one place.
proof fn lemma_filter_out_unique(codes: Seq<Seq<char>>, slot: int)
    requires
        codes.no_duplicates(),
        0 <= slot < codes.len(),
    ensures
        codes_without(codes, codes[slot]) == codes.remove(slot),
    decreases codes.len(),
{
    let code = codes[slot];
    let front = codes.drop_last();
    reveal(Seq::filter);
    if slot == codes.len() - 1 {
        lemma_filter_out_absent(front, code);
    } else {
        lemma_filter_out_unique(front, slot);
    }
}

/// Filtering out a value that does not occur changes nothing.
proof fn lemma_filter_out_absent(codes: Seq<Seq<char>>, code: Seq<char>)
    requires
        !codes.contains(code),
    ensures
        codes_without(codes, code) == codes,
    decreases codes.len(),
{
    reveal(Seq::filter);
    if codes.len() > 0 {
        lemma_filter_out_absent(codes.drop_last(), code);
    }
}

} // verus!
