//! The event ingestor: how the cache follows what the platform announces.

use vstd::prelude::*;
use crate::cache::{codes_with, codes_without, observed, InviteCache};
use crate::join::{after_join, any_increase, consumed_at, JoinGrant};
use crate::record::{live_views, Entry, LiveInvite};

verus! {

/// One notification pushed by the platform.
#[derive(Debug, PartialEq, Eq)]
pub enum PlatformEvent {
    /// An invite was created.
    InviteCreated { code: String },
    /// An invite was deleted.
    InviteDeleted { code: String },
    /// A member joined. `live` is the invite list that was fetched for the
    /// join, or nothing where the platform could not be asked.
    MemberJoined { member: u64, live: Option<Vec<LiveInvite>> },
}

/// Why a join led to no grant. Neither is an error: both are logged, and the
/// join is not looked at again.
#[derive(Debug, Clone, Copy, PartialEq, Eq)]
pub enum NoGrant {
    /// No invite shows more uses than the cache knows of.
    NoIncrease,
    /// The live invite list could not be had: rather than guess, nothing is
    /// granted.
    InvitesUnavailable,
}

/// What the caller has to do after an event has been applied.
#[derive(Debug, PartialEq, Eq)]
pub enum Reaction {
    /// The cache is in step. Nothing is left to do.
    Nothing,
    /// Grant the member the roles of the invite it came through.
    GrantRoles { member: u64, grant: JoinGrant },
    /// Grant nothing, and log why.
    LogUngranted { member: u64, reason: NoGrant },
}

/// Announcements may be repeated: a second creation or deletion of the same
/// code changes nothing, and a creation never touches the roles or the use
/// count of a code that is cached.
pub proof fn lemma_announcements_are_idempotent(
    cache: Map<Seq<char>, Entry>,
    code: Seq<char>,
)
    ensures
        observed(observed(cache, code, 0), code, 0) == observed(cache, code, 0),
        cache.contains_key(code) ==> observed(cache, code, 0) == cache,
        cache.remove(code).remove(code) == cache.remove(code),
        !cache.contains_key(code) ==> cache.remove(code) == cache,
{
}

impl InviteCache {
    /// The platform announced a new invite: it is cached without roles and
    /// with no uses. Announcing a code that is cached already changes nothing.
    pub fn on_invite_created(&mut self, code: &str)
        ensures
            final(self)@ == observed(old(self)@, code@, 0),
            final(self).codes() == codes_with(old(self).codes(), code@),
    {
        self.observe(code, 0);
    }

    /// The platform announced that an invite is gone: it leaves the cache.
    /// Announcing a code that is not cached changes nothing.
    pub fn on_invite_deleted(&mut self, code: &str)
        ensures
            final(self)@ == old(self)@.remove(code@),
            final(self).codes() == codes_without(old(self).codes(), code@),
    {
        self.remove(code);
    }

    /// Applies one platform event to the cache and says what is left to do.
    pub fn handle(&mut self, event: PlatformEvent) -> (reaction: Reaction)
        ensures
            match event {
                PlatformEvent::InviteCreated { code } => {
                    &&& final(self)@ == observed(old(self)@, code@, 0)
                    &&& final(self).codes() == codes_with(old(self).codes(), code@)
                    &&& reaction is Nothing
                },
                PlatformEvent::InviteDeleted { code } => {
                    &&& final(self)@ == old(self)@.remove(code@)
                    &&& final(self).codes() == codes_without(old(self).codes(), code@)
                    &&& reaction is Nothing
                },
                PlatformEvent::MemberJoined { member, live: None } => {
                    &&& final(self)@ == old(self)@
                    &&& final(self).codes() == old(self).codes()
                    &&& reaction == (Reaction::LogUngranted {
                        member,
                        reason: NoGrant::InvitesUnavailable,
                    })
                },
                PlatformEvent::MemberJoined { member, live: Some(live) } => {
                    &&& final(self)@ == after_join(old(self)@, live_views(live@))
                    &&& final(self).codes() == old(self).codes()
                    &&& if any_increase(old(self)@, live_views(live@)) {
                        let invite = live_views(live@)[consumed_at(
                            old(self)@,
                            live_views(live@),
                        )];
                        &&& reaction matches Reaction::GrantRoles { member: granted_to, grant }
                        &&& granted_to == member
                        &&& grant.code@ == invite.code
                        &&& grant.roles@ == old(self)@[invite.code].roles
                        &&& grant.uses == invite.uses
                    } else {
                        reaction == (Reaction::LogUngranted { member, reason: NoGrant::NoIncrease })
                    }
                },
            },
    {
        match event {
            PlatformEvent::InviteCreated { code } => {
                self.on_invite_created(code.as_str());
                Reaction::Nothing
            },
            PlatformEvent::InviteDeleted { code } => {
                self.on_invite_deleted(code.as_str());
                Reaction::Nothing
            },
            PlatformEvent::MemberJoined { member, live: None } => {
                Reaction::LogUngranted { member, reason: NoGrant::InvitesUnavailable }
            },
            PlatformEvent::MemberJoined { member, live: Some(live) } => {
                match self.resolve_join(&live) {
                    Some(grant) => Reaction::GrantRoles { member, grant },
                    None => Reaction::LogUngranted { member, reason: NoGrant::NoIncrease },
                }
            },
        }
    }
}

} // verus!
