//! Plain data carried by the invite cache and exchanged with its collaborators.

use vstd::prelude::*;

verus! {

/// Identifier of a role on the chat platform.
pub type RoleId = u64;

/// What the cache holds for one invite code: the roles that the invite
/// grants, in the order they were linked, and how often the invite has been
/// used.
pub struct Entry {
    pub roles: Seq<RoleId>,
    pub uses: u64,
}

/// One cached invite. Its identity is the code.
#[derive(Debug, PartialEq, Eq)]
pub struct InviteRecord {
    pub code: String,
    pub roles: Vec<RoleId>,
    pub uses: u64,
}

/// Mathematical value of an [`InviteRecord`].
pub struct InviteRecordView {
    pub code: Seq<char>,
    pub roles: Seq<RoleId>,
    pub uses: u64,
}

impl InviteRecordView {
    /// The roles and use count, without the code they belong to.
    pub open spec fn entry(self) -> Entry {
        Entry { roles: self.roles, uses: self.uses }
    }
}

impl View for InviteRecord {
    type V = InviteRecordView;

    open spec fn view(&self) -> InviteRecordView {
        InviteRecordView { code: self.code@, roles: self.roles@, uses: self.uses }
    }
}

impl Clone for InviteRecord {
    fn clone(&self) -> (copy: Self)
        ensures
            copy@ == self@,
    {
        InviteRecord { code: self.code.clone(), roles: copy_roles(&self.roles), uses: self.uses }
    }
}

impl InviteRecord {
    pub fn new(code: &str, roles: Vec<RoleId>, uses: u64) -> (record: Self)
        ensures
            record@ == (InviteRecordView { code: code@, roles: roles@, uses }),
    {
        InviteRecord { code: code.to_owned(), roles, uses }
    }
}

/// The part of an invite record that is kept on disk: use counts are always
/// taken from the platform again at the next start.
#[derive(Debug, PartialEq, Eq)]
pub struct PersistedInviteRoles {
    pub code: String,
    pub roles: Vec<RoleId>,
}

/// Mathematical value of a [`PersistedInviteRoles`].
pub struct PersistedView {
    pub code: Seq<char>,
    pub roles: Seq<RoleId>,
}

impl View for PersistedInviteRoles {
    type V = PersistedView;

    open spec fn view(&self) -> PersistedView {
        PersistedView { code: self.code@, roles: self.roles@ }
    }
}

impl Clone for PersistedInviteRoles {
    fn clone(&self) -> (copy: Self)
        ensures
            copy@ == self@,
    {
        PersistedInviteRoles { code: self.code.clone(), roles: copy_roles(&self.roles) }
    }
}

impl PersistedInviteRoles {
    pub fn new(code: &str, roles: Vec<RoleId>) -> (record: Self)
        ensures
            record@ == (PersistedView { code: code@, roles: roles@ }),
    {
        PersistedInviteRoles { code: code.to_owned(), roles }
    }
}

/// One live invite as the platform reports it.
#[derive(Debug, PartialEq, Eq)]
pub struct LiveInvite {
    pub code: String,
    pub uses: u64,
}

/// Mathematical value of a [`LiveInvite`].
pub struct LiveInviteView {
    pub code: Seq<char>,
    pub uses: u64,
}

impl View for LiveInvite {
    type V = LiveInviteView;

    open spec fn view(&self) -> LiveInviteView {
        LiveInviteView { code: self.code@, uses: self.uses }
    }
}

impl Clone for LiveInvite {
    fn clone(&self) -> (copy: Self)
        ensures
            copy@ == self@,
    {
        LiveInvite { code: self.code.clone(), uses: self.uses }
    }
}

impl LiveInvite {
    pub fn new(code: &str, uses: u64) -> (invite: Self)
        ensures
            invite@ == (LiveInviteView { code: code@, uses }),
    {
        LiveInvite { code: code.to_owned(), uses }
    }
}

/// The values of a list of persisted records, in list order.
pub open spec fn persisted_views(records: Seq<PersistedInviteRoles>) -> Seq<PersistedView> {
    records.map_values(|r: PersistedInviteRoles| r@)
}

/// The values of a list of live invites, in list order.
pub open spec fn live_views(invites: Seq<LiveInvite>) -> Seq<LiveInviteView> {
    invites.map_values(|i: LiveInvite| i@)
}

/// The values of a list of invite records, in list order.
pub open spec fn record_views(records: Seq<InviteRecord>) -> Seq<InviteRecordView> {
    records.map_values(|r: InviteRecord| r@)
}

/// The views of a list of strings, in list order.
pub open spec fn text_views(texts: Seq<String>) -> Seq<Seq<char>> {
    texts.map_values(|t: String| t@)
}

/// Copies a list of role ids.
pub fn copy_roles(roles: &Vec<RoleId>) -> (copy: Vec<RoleId>)
    ensures
        copy@ == roles@,
{
    let copy = roles.clone();
    assert(copy@ =~= roles@);
    copy
}

} // verus!
