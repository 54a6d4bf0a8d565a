//! The roles of a guild by name and by id, as the guild directory reports them.

use vstd::prelude::*;
use crate::record::{text_views, RoleId};
use crate::search::{first_at, lemma_first_at_is};

verus! {

/// One role of the guild.
#[derive(Debug, PartialEq, Eq)]
pub struct GuildRole {
    pub id: RoleId,
    pub name: String,
}

/// Mathematical value of a [`GuildRole`].
pub struct GuildRoleView {
    pub id: RoleId,
    pub name: Seq<char>,
}

impl View for GuildRole {
    type V = GuildRoleView;

    open spec fn view(&self) -> GuildRoleView {
        GuildRoleView { id: self.id, name: self.name@ }
    }
}

impl Clone for GuildRole {
    fn clone(&self) -> (copy: Self)
        ensures
            copy@ == self@,
    {
        GuildRole { id: self.id, name: self.name.clone() }
    }
}

impl GuildRole {
    pub fn new(id: RoleId, name: &str) -> (role: Self)
        ensures
            role@ == (GuildRoleView { id, name: name@ }),
    {
        GuildRole { id, name: name.to_owned() }
    }
}

/// The names of the roles, in directory order.
pub open spec fn role_names(roles: Seq<GuildRoleView>) -> Seq<Seq<char>> {
    roles.map_values(|r: GuildRoleView| r.name)
}

/// The ids of the roles, in directory order.
pub open spec fn role_ids(roles: Seq<GuildRoleView>) -> Seq<RoleId> {
    roles.map_values(|r: GuildRoleView| r.id)
}

/// The id of the first role named `name`.
pub open spec fn role_by_name(roles: Seq<GuildRoleView>, name: Seq<char>) -> Option<RoleId> {
    if role_names(roles).contains(name) {
        Some(roles[first_at(role_names(roles), name)].id)
    } else {
        None
    }
}

/// The name of the first role whose id is `id`.
pub open spec fn name_of_role(roles: Seq<GuildRoleView>, id: RoleId) -> Option<Seq<char>> {
    if role_ids(roles).contains(id) {
        Some(roles[first_at(role_ids(roles), id)].name)
    } else {
        None
    }
}

/// Resolution of one name, as a function of the name.
pub open spec fn resolver(roles: Seq<GuildRoleView>) -> spec_fn(Seq<char>) -> Option<RoleId> {
    |name: Seq<char>| role_by_name(roles, name)
}

/// Whether a name matches no role, as a function of the name.
pub open spec fn is_unknown(roles: Seq<GuildRoleView>) -> spec_fn(Seq<char>) -> bool {
    |name: Seq<char>| role_by_name(roles, name) is None
}

/// The ids of the names that match a role, in the order of `names`.
pub open spec fn resolved_roles(roles: Seq<GuildRoleView>, names: Seq<Seq<char>>) -> Seq<RoleId> {
    names.filter_map(resolver(roles))
}

/// The names that match no role, in the order of `names`.
pub open spec fn unknown_names(roles: Seq<GuildRoleView>, names: Seq<Seq<char>>) -> Seq<
    Seq<char>,
> {
    names.filter(is_unknown(roles))
}

/// What became of a list of requested role names.
#[derive(Debug, PartialEq, Eq)]
pub struct Resolution {
    /// The ids of the names that match a role, in request order.
    pub roles: Vec<RoleId>,
    /// The names that match no role, in request order.
    pub unknown: Vec<String>,
}

/// The role set of one guild at one moment.
#[derive(Debug, PartialEq, Eq)]
pub struct RoleDirectory {
    pub roles: Vec<GuildRole>,
}

impl View for RoleDirectory {
    type V = Seq<GuildRoleView>;

    open spec fn view(&self) -> Seq<GuildRoleView> {
        self.roles@.map_values(|r: GuildRole| r@)
    }
}

impl RoleDirectory {
    pub fn new(roles: Vec<GuildRole>) -> (directory: Self)
        ensures
            directory.roles == roles,
    {
        RoleDirectory { roles }
    }

    /// Resolves a role name within the guild: the first role of that name,
    /// in directory order.
    pub fn resolve_role_by_name(&self, name: &str) -> (found: Option<RoleId>)
        ensures
            found == role_by_name(self@, name@),
    {
        let key = name.to_owned();
        self.resolve(&key)
    }

    /// Resolves a role name that is at hand as a `String`.
    fn resolve(&self, name: &String) -> (found: Option<RoleId>)
        ensures
            found == role_by_name(self@, name@),
    {
        let ghost names = role_names(self@);
        let mut at: usize = 0;
        while at < self.roles.len()
            invariant
                at <= self.roles.len(),
                names == role_names(self@),
                forall|earlier: int| 0 <= earlier < at ==> names[earlier] != name@,
            decreases self.roles.len() - at,
        {
            if self.roles[at].name == *name {
                proof {
                    lemma_first_at_is(names, name@, at as int);
                }
                return Some(self.roles[at].id);
            }
            at += 1;
        }
        None
    }

    /// Resolves each requested name, and keeps apart the names that match no
    /// role: those are reported, the others still count.
    pub fn resolve_all(&self, names: &Vec<String>) -> (resolution: Resolution)
        ensures
            resolution.roles@ == resolved_roles(self@, text_views(names@)),
            text_views(resolution.unknown@) == unknown_names(self@, text_views(names@)),
    {
        let ghost wanted = text_views(names@);
        let mut roles: Vec<RoleId> = Vec::new();
        let mut unknown: Vec<String> = Vec::new();
        let mut next: usize = 0;
        proof {
            reveal(Seq::filter);
        }
        while next < names.len()
            invariant
                next <= names.len(),
                wanted == text_views(names@),
                roles@ == resolved_roles(self@, wanted.take(next as int)),
                text_views(unknown@) == unknown_names(self@, wanted.take(next as int)),
            decreases names.len() - next,
        {
            proof {
                wanted.lemma_filter_map_take_succ(resolver(self@), next as int);
                assert(wanted.take(next + 1) =~= wanted.take(next as int).push(
                    wanted[next as int],
                ));
                wanted.take(next as int).lemma_filter_push(wanted[next as int], is_unknown(self@));
            }
            match self.resolve(&names[next]) {
                Some(id) => roles.push(id),
                None => unknown.push(names[next].clone()),
            }
            next += 1;
        }
        proof {
            assert(wanted.take(wanted.len() as int) =~= wanted);
        }
        Resolution { roles, unknown }
    }

    /// The display name of a role: that of the first role with this id, in
    /// directory order.
    pub fn role_name(&self, id: RoleId) -> (found: Option<String>)
        ensures
            match found {
                Some(name) => name_of_role(self@, id) == Some(name@),
                None => name_of_role(self@, id) is None,
            },
    {
        let ghost ids = role_ids(self@);
        let mut at: usize = 0;
        while at < self.roles.len()
            invariant
                at <= self.roles.len(),
                ids == role_ids(self@),
                forall|earlier: int| 0 <= earlier < at ==> ids[earlier] != id,
            decreases self.roles.len() - at,
        {
            if self.roles[at].id == id {
                proof {
                    lemma_first_at_is(ids, id, at as int);
                }
                return Some(self.roles[at].name.clone());
            }
            at += 1;
        }
        None
    }
}

} // verus!
