//! The association editor: what an administrator's `link` and `unlink` do to
//! the roles of one cached invite.

use vstd::prelude::*;
use crate::cache::{uses_never_fall, InviteCache};
use crate::directory::{resolved_roles, unknown_names, RoleDirectory};
use crate::record::{copy_roles, text_views, Entry, InviteRecord, RoleId};
use crate::roles::{
    add_roles, lemma_linked_adds_no_duplicate, lemma_linking_twice, lemma_unlinking_absent_roles,
    linked_roles, remove_roles, unlinked_roles,
};

verus! {

/// Why an edit did nothing at all.
#[derive(Debug, Clone, Copy, PartialEq, Eq)]
pub enum EditError {
    /// The invite code is not in the cache. The edit can be repeated once the
    /// platform has announced the invite.
    InviteNotFound,
}

/// What an edit that went through did.
#[derive(Debug, PartialEq, Eq)]
pub struct EditOutcome {
    /// The roles linked to the invite after the edit.
    pub roles: Vec<RoleId>,
    /// The requested names that match no role of the guild, in request order.
    /// They are reported; the other names of the request were still applied.
    pub unknown_roles: Vec<String>,
}

/// The cache after the roles `added` have been linked to `code`. A cache that
/// does not hold `code` stays as it is.
pub open spec fn with_linked(
    cache: Map<Seq<char>, Entry>,
    code: Seq<char>,
    added: Seq<RoleId>,
) -> Map<Seq<char>, Entry> {
    if cache.contains_key(code) {
        cache.insert(
            code,
            Entry { roles: linked_roles(cache[code].roles, added), uses: cache[code].uses },
        )
    } else {
        cache
    }
}

/// The cache after the roles `removed` have been unlinked from `code`. A
/// cache that does not hold `code` stays as it is.
pub open spec fn with_unlinked(
    cache: Map<Seq<char>, Entry>,
    code: Seq<char>,
    removed: Seq<RoleId>,
) -> Map<Seq<char>, Entry> {
    if cache.contains_key(code) {
        cache.insert(
            code,
            Entry {
                roles: unlinked_roles(cache[code].roles, removed),
                uses: cache[code].uses,
            },
        )
    } else {
        cache
    }
}

/// Linking the same roles to an invite twice leaves the cache as linking
/// them once does, and a role list without repeats stays without repeats.
pub proof fn lemma_link_is_idempotent(
    cache: Map<Seq<char>, Entry>,
    code: Seq<char>,
    added: Seq<RoleId>,
)
    ensures
        with_linked(with_linked(cache, code, added), code, added) == with_linked(
            cache,
            code,
            added,
        ),
        cache.contains_key(code) && cache[code].roles.no_duplicates() ==> with_linked(
            cache,
            code,
            added,
        )[code].roles.no_duplicates(),
{
    if cache.contains_key(code) {
        lemma_linking_twice(cache[code].roles, added);
        if cache[code].roles.no_duplicates() {
            lemma_linked_adds_no_duplicate(cache[code].roles, added);
        }
    }
}

/// Unlinking roles of which none is linked to the invite changes nothing.
pub proof fn lemma_unlink_of_unlinked_roles(
    cache: Map<Seq<char>, Entry>,
    code: Seq<char>,
    removed: Seq<RoleId>,
)
    requires
        cache.contains_key(code) ==> forall|i: int|
            0 <= i < removed.len() ==> !cache[code].roles.contains(#[trigger] removed[i]),
    ensures
        with_unlinked(cache, code, removed) == cache,
{
    if cache.contains_key(code) {
        lemma_unlinking_absent_roles(cache[code].roles, removed);
    }
}

/// An edit of one code touches no other code: every other code is cached
/// after the edit exactly if it was before, with the same roles and the same
/// use count. The edited code keeps its use count.
pub proof fn lemma_edit_touches_one_code(
    cache: Map<Seq<char>, Entry>,
    code: Seq<char>,
    roles: Seq<RoleId>,
    other: Seq<char>,
)
    requires
        other != code,
    ensures
        with_linked(cache, code, roles).contains_key(other) == cache.contains_key(other),
        with_linked(cache, code, roles)[other] == cache[other],
        with_unlinked(cache, code, roles).contains_key(other) == cache.contains_key(other),
        with_unlinked(cache, code, roles)[other] == cache[other],
        uses_never_fall(cache, with_linked(cache, code, roles)),
        uses_never_fall(cache, with_unlinked(cache, code, roles)),
{
}

impl InviteCache {
    /// Links the named roles to the invite `code`.
    ///
    /// Each name is resolved within the guild. A name that matches no role is
    /// reported in the outcome and the other names are still applied. A role
    /// that is linked already is not linked a second time. Where the cache
    /// does not hold `code`, nothing is changed and the edit fails as a whole.
    pub fn link(
        &mut self,
        code: &str,
        role_names: &Vec<String>,
        directory: &RoleDirectory,
    ) -> (result: Result<EditOutcome, EditError>)
        ensures
            old(self)@.contains_key(code@) <==> result is Ok,
            final(self)@ == with_linked(
                old(self)@,
                code@,
                resolved_roles(directory@, text_views(role_names@)),
            ),
            final(self).codes() == old(self).codes(),
            match result {
                Ok(outcome) => {
                    &&& outcome.roles@ == final(self)@[code@].roles
                    &&& text_views(outcome.unknown_roles@) == unknown_names(
                        directory@,
                        text_views(role_names@),
                    )
                },
                Err(error) => error is InviteNotFound,
            },
    {
        match self.get(code) {
            None => Err(EditError::InviteNotFound),
            Some(record) => {
                let resolution = directory.resolve_all(role_names);
                let roles = add_roles(record.roles, &resolution.roles);
                let linked = copy_roles(&roles);
                self.put(InviteRecord { code: record.code, roles, uses: record.uses });
                Ok(EditOutcome { roles: linked, unknown_roles: resolution.unknown })
            },
        }
    }

    /// Unlinks the named roles from the invite `code`.
    ///
    /// Each name is resolved within the guild. A name that matches no role is
    /// reported in the outcome. A role that is not linked is left out without
    /// complaint: the edit still succeeds. Where the cache does not hold
    /// `code`, nothing is changed and the edit fails as a whole.
    pub fn unlink(
        &mut self,
        code: &str,
        role_names: &Vec<String>,
        directory: &RoleDirectory,
    ) -> (result: Result<EditOutcome, EditError>)
        ensures
            old(self)@.contains_key(code@) <==> result is Ok,
            final(self)@ == with_unlinked(
                old(self)@,
                code@,
                resolved_roles(directory@, text_views(role_names@)),
            ),
            final(self).codes() == old(self).codes(),
            match result {
                Ok(outcome) => {
                    &&& outcome.roles@ == final(self)@[code@].roles
                    &&& text_views(outcome.unknown_roles@) == unknown_names(
                        directory@,
                        text_views(role_names@),
                    )
                },
                Err(error) => error is InviteNotFound,
            },
    {
        match self.get(code) {
            None => Err(EditError::InviteNotFound),
            Some(record) => {
                let resolution = directory.resolve_all(role_names);
                let roles = remove_roles(&record.roles, &resolution.roles);
                let linked = copy_roles(&roles);
                self.put(InviteRecord { code: record.code, roles, uses: record.uses });
                Ok(EditOutcome { roles: linked, unknown_roles: resolution.unknown })
            },
        }
    }
}

} // verus!
