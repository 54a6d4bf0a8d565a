//! The role list of one invite: an ordered list that is edited like a set.

use vstd::prelude::*;
use crate::record::RoleId;

verus! {

/// `roles` after each role of `added` has been linked in turn: a role that is
/// not in the list yet goes to its end, a role that is there already changes
/// nothing.
pub open spec fn linked_roles(roles: Seq<RoleId>, added: Seq<RoleId>) -> Seq<RoleId>
    decreases added.len(),
{
    if added.len() == 0 {
        roles
    } else {
        let before = linked_roles(roles, added.drop_last());
        if before.contains(added.last()) {
            before
        } else {
            before.push(added.last())
        }
    }
}

/// `roles` without every occurrence of a role of `removed`; the others keep
/// their order.
pub open spec fn unlinked_roles(roles: Seq<RoleId>, removed: Seq<RoleId>) -> Seq<RoleId> {
    roles.filter(|role: RoleId| !removed.contains(role))
}

/// Linking only appends: the list as it was stays in front.
pub proof fn lemma_linked_extends(roles: Seq<RoleId>, added: Seq<RoleId>)
    ensures
        roles.len() <= linked_roles(roles, added).len(),
        linked_roles(roles, added).take(roles.len() as int) == roles,
    decreases added.len(),
{
    if added.len() > 0 {
        lemma_linked_extends(roles, added.drop_last());
    }
}

/// After linking, the list holds exactly the roles it held before and the
/// roles that were linked.
pub proof fn lemma_linked_contains(roles: Seq<RoleId>, added: Seq<RoleId>)
    ensures
        forall|role: RoleId| #[trigger]
            linked_roles(roles, added).contains(role) <==> roles.contains(role) || added.contains(
                role,
            ),
    decreases added.len(),
{
    if added.len() > 0 {
        broadcast use vstd::seq_lib::lemma_seq_contains_after_push;

        let front = added.drop_last();
        lemma_linked_contains(roles, front);
        assert(added == front.push(added.last()));
        // The claim for the shorter list, at the role that comes last.
        assert(linked_roles(roles, front).contains(added.last()) <==> roles.contains(added.last())
            || front.contains(added.last()));
    }
}

/// Linking never makes a role occur twice.
pub proof fn lemma_linked_adds_no_duplicate(roles: Seq<RoleId>, added: Seq<RoleId>)
    requires
        roles.no_duplicates(),
    ensures
        linked_roles(roles, added).no_duplicates(),
    decreases added.len(),
{
    if added.len() > 0 {
        lemma_linked_adds_no_duplicate(roles, added.drop_last());
    }
}

/// Linking roles that are all linked already changes nothing.
pub proof fn lemma_linking_present_roles(roles: Seq<RoleId>, added: Seq<RoleId>)
    requires
        forall|i: int| 0 <= i < added.len() ==> roles.contains(#[trigger] added[i]),
    ensures
        linked_roles(roles, added) == roles,
    decreases added.len(),
{
    if added.len() > 0 {
        lemma_linking_present_roles(roles, added.drop_last());
    }
}

/// Linking the same roles a second time changes nothing.
pub proof fn lemma_linking_twice(roles: Seq<RoleId>, added: Seq<RoleId>)
    ensures
        linked_roles(linked_roles(roles, added), added) == linked_roles(roles, added),
{
    lemma_linked_contains(roles, added);
    lemma_linking_present_roles(linked_roles(roles, added), added);
}

/// After unlinking, the list holds exactly the roles it held before that were
/// not unlinked.
pub proof fn lemma_unlinked_contains(roles: Seq<RoleId>, removed: Seq<RoleId>)
    ensures
        forall|role: RoleId| #[trigger]
            unlinked_roles(roles, removed).contains(role) <==> roles.contains(role)
                && !removed.contains(role),
    decreases roles.len(),
{
    if roles.len() > 0 {
        broadcast use vstd::seq_lib::lemma_seq_contains_after_push;

        reveal(Seq::filter);
        let front = roles.drop_last();
        lemma_unlinked_contains(front, removed);
        assert(roles == front.push(roles.last()));
        // The claim for the shorter list, at the role that comes last.
        assert(unlinked_roles(front, removed).contains(roles.last()) <==> front.contains(
            roles.last(),
        ) && !removed.contains(roles.last()));
    }
}

/// Unlinking roles of which none is linked changes nothing.
pub proof fn lemma_unlinking_absent_roles(roles: Seq<RoleId>, removed: Seq<RoleId>)
    requires
        forall|i: int| 0 <= i < removed.len() ==> !roles.contains(#[trigger] removed[i]),
    ensures
        unlinked_roles(roles, removed) == roles,
    decreases roles.len(),
{
    if roles.len() > 0 {
        broadcast use vstd::seq_lib::lemma_seq_contains_after_push;

        reveal(Seq::filter);
        lemma_unlinking_absent_roles(roles.drop_last(), removed);
    }
}

/// Unlinking never makes a role occur twice.
pub proof fn lemma_unlinked_adds_no_duplicate(roles: Seq<RoleId>, removed: Seq<RoleId>)
    requires
        roles.no_duplicates(),
    ensures
        unlinked_roles(roles, removed).no_duplicates(),
    decreases roles.len(),
{
    if roles.len() > 0 {
        reveal(Seq::filter);
        let front = roles.drop_last();
        lemma_unlinked_adds_no_duplicate(front, removed);
        lemma_unlinked_contains(front, removed);
        assert(unlinked_roles(front, removed).contains(roles.last()) ==> front.contains(
            roles.last(),
        ));
    }
}

/// Whether `role` occurs in `roles`.
pub fn has_role(roles: &Vec<RoleId>, role: RoleId) -> (found: bool)
    ensures
        found == roles@.contains(role),
{
    let mut at: usize = 0;
    while at < roles.len()
        invariant
            at <= roles.len(),
            forall|earlier: int| 0 <= earlier < at ==> roles@[earlier] != role,
        decreases roles.len() - at,
    {
        if roles[at] == role {
            return true;
        }
        at += 1;
    }
    false
}

/// Links each role of `added` to `roles`, in order.
pub fn add_roles(roles: Vec<RoleId>, added: &Vec<RoleId>) -> (after: Vec<RoleId>)
    ensures
        after@ == linked_roles(roles@, added@),
{
    let mut after = roles;
    let mut next: usize = 0;
    while next < added.len()
        invariant
            next <= added.len(),
            after@ == linked_roles(roles@, added@.take(next as int)),
        decreases added.len() - next,
    {
        proof {
            assert(added@.take(next + 1).drop_last() =~= added@.take(next as int));
        }
        let role = added[next];
        if !has_role(&after, role) {
            after.push(role);
        }
        next += 1;
    }
    proof {
        assert(added@.take(added@.len() as int) =~= added@);
    }
    after
}

/// Unlinks every role of `removed` from `roles`.
pub fn remove_roles(roles: &Vec<RoleId>, removed: &Vec<RoleId>) -> (after: Vec<RoleId>)
    ensures
        after@ == unlinked_roles(roles@, removed@),
{
    let mut after: Vec<RoleId> = Vec::new();
    let mut next: usize = 0;
    proof {
        reveal(Seq::filter);
    }
    while next < roles.len()
        invariant
            next <= roles.len(),
            after@ == unlinked_roles(roles@.take(next as int), removed@),
        decreases roles.len() - next,
    {
        proof {
            reveal(Seq::filter);
            assert(roles@.take(next + 1).drop_last() =~= roles@.take(next as int));
        }
        let role = roles[next];
        if !has_role(removed, role) {
            after.push(role);
        }
        next += 1;
    }
    proof {
        assert(roles@.take(roles@.len() as int) =~= roles@);
    }
    after
}

} // verus!
