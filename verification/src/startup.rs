//! The way from a cold start to a cache that may be consulted: load the
//! store, ask the operator where the store is absent, fetch the live invite
//! list, reconcile, write the store back.
//!
//! The caller does the reading, asking, fetching and writing. This module
//! decides what comes next. No event or command may be handled before the
//! state is [`Startup::Ready`].

use vstd::prelude::*;
use crate::cache::InviteCache;
use crate::reconcile::{first_listings, live_codes, reconcile, reconciled};
use crate::record::{live_views, persisted_views, LiveInvite, PersistedInviteRoles};
use crate::store::{projection, StoreError};

verus! {

/// What `str::to_lowercase` of std makes of a text: the text in lower case,
/// as Unicode defines it.
pub uninterp spec fn lowercase_of(text: Seq<char>) -> Seq<char>;

/// What `str::trim` of std leaves of a text: the text without the white space
/// at its two ends, as Unicode defines white space.
pub uninterp spec fn trimmed(text: Seq<char>) -> Seq<char>;

/// Calls `str::to_lowercase` of std. Trusted, not proved: the result is
/// decided by the text alone. What the result is goes by the name
/// [`lowercase_of`]; nothing more is claimed of it.
#[verifier::external_body]
fn lowercase(text: &str) -> (lowered: String)
    ensures
        lowered@ == lowercase_of(text@),
{
    text.to_lowercase()
}

/// Calls `str::trim` of std. Trusted, not proved: the result is decided by
/// the text alone. What the result is goes by the name [`trimmed`]; nothing
/// more is claimed of it.
#[verifier::external_body]
fn trim(text: &str) -> (inner: &str)
    ensures
        inner@ == trimmed(text@),
{
    text.trim()
}

/// What the operator said to a yes-or-no question.
#[derive(Debug, Clone, Copy, PartialEq, Eq)]
pub enum Answer {
    Yes,
    No,
    /// Neither: the question is asked again.
    Unclear,
}

/// The answer that a text stands for once it is in lower case and trimmed.
pub open spec fn answer_of(normal: Seq<char>) -> Answer {
    if normal == "y"@ {
        Answer::Yes
    } else if normal == "n"@ {
        Answer::No
    } else {
        Answer::Unclear
    }
}

impl Answer {
    /// Reads an answer that is in lower case and trimmed already: `y` is yes,
    /// `n` is no, and everything else is unclear.
    pub fn from_normal(normal: &str) -> (answer: Answer)
        ensures
            answer == answer_of(normal@),
    {
        let given = normal.to_owned();
        if given == "y".to_owned() {
            Answer::Yes
        } else if given == "n".to_owned() {
            Answer::No
        } else {
            Answer::Unclear
        }
    }

    /// Reads an answer as the operator typed it: case and surrounding white
    /// space do not matter.
    pub fn parse(text: &str) -> (answer: Answer)
        ensures
            answer == answer_of(trimmed(lowercase_of(text@))),
    {
        let lowered = lowercase(text);
        Answer::from_normal(trim(lowered.as_str()))
    }
}

/// Why the process must not start. With a cache that is seeded in part only,
/// a join could be answered with the wrong roles.
#[derive(Debug, Clone, Copy, PartialEq, Eq)]
pub enum StartupError {
    /// The persisted records cannot be read.
    StoreMalformed,
    /// The platform did not hand out its live invite list, so nothing says
    /// which codes exist.
    PlatformUnreachable,
}

/// Where the startup stands.
#[derive(Debug)]
pub enum Startup {
    /// The persisted records are being loaded.
    LoadingStore,
    /// The store is absent, and the operator was asked whether to create it.
    AwaitingAnswer,
    /// The live invite list is being fetched.
    FetchingInvites { persisted: Vec<PersistedInviteRoles> },
    /// The cache is reconciled. Events and commands may be handled.
    Ready { cache: InviteCache },
    /// The startup was given up.
    Failed { error: StartupError },
}

/// What the caller found out.
#[derive(Debug, PartialEq, Eq)]
pub enum StartupEvent {
    /// The store was read, or could not be.
    StoreLoaded { outcome: Result<Vec<PersistedInviteRoles>, StoreError> },
    /// The operator answered the question about the absent store.
    OperatorAnswered { answer: Answer },
    /// The platform handed out its live invite list, or did not.
    InvitesFetched { live: Option<Vec<LiveInvite>> },
}

/// What the caller has to do next.
#[derive(Debug, PartialEq, Eq)]
pub enum StartupAction {
    /// Ask the operator whether the absent store shall be created.
    AskOperator,
    /// Fetch the live invite list. Where `create_store` is set, first create
    /// the store with no records in it.
    FetchInvites { create_store: bool },
    /// Write these records to the store, so that it no longer names codes
    /// that are gone. Then begin to handle events and commands.
    WriteStore { records: Vec<PersistedInviteRoles> },
    /// Give up and report the error.
    Abort { error: StartupError },
    /// Nothing: the event is not one that this state waits for.
    Ignore,
}

impl Startup {
    /// The state in which every startup begins. The caller loads the store.
    pub fn begin() -> (state: Startup)
        ensures
            state is LoadingStore,
    {
        Startup::LoadingStore
    }

    /// The next state and the next thing to do, given what the caller found
    /// out. An event that the state does not wait for changes nothing.
    pub fn step(self, event: StartupEvent) -> (next: (Startup, StartupAction))
        ensures
            match (self, event) {
                (Startup::LoadingStore, StartupEvent::StoreLoaded { outcome: Ok(records) }) => {
                    &&& next.0 == (Startup::FetchingInvites { persisted: records })
                    &&& next.1 == (StartupAction::FetchInvites { create_store: false })
                },
                (
                    Startup::LoadingStore,
                    StartupEvent::StoreLoaded { outcome: Err(StoreError::NotFound) },
                ) => {
                    &&& next.0 is AwaitingAnswer
                    &&& next.1 is AskOperator
                },
                (
                    Startup::LoadingStore,
                    StartupEvent::StoreLoaded { outcome: Err(StoreError::Malformed) },
                ) => {
                    &&& next.0 == (Startup::Failed { error: StartupError::StoreMalformed })
                    &&& next.1 == (StartupAction::Abort { error: StartupError::StoreMalformed })
                },
                (
                    Startup::AwaitingAnswer,
                    StartupEvent::OperatorAnswered { answer: Answer::Unclear },
                ) => {
                    &&& next.0 is AwaitingAnswer
                    &&& next.1 is AskOperator
                },
                (Startup::AwaitingAnswer, StartupEvent::OperatorAnswered { answer }) => {
                    &&& next.0 matches Startup::FetchingInvites { persisted }
                    &&& persisted@.len() == 0
                    &&& next.1 == (StartupAction::FetchInvites { create_store: answer is Yes })
                },
                (
                    Startup::FetchingInvites { persisted },
                    StartupEvent::InvitesFetched { live: Some(live) },
                ) => {
                    &&& next.0 matches Startup::Ready { cache }
                    &&& cache@ == reconciled(persisted_views(persisted@), live_views(live@))
                    &&& cache.codes() == first_listings(live_codes(live_views(live@)))
                    &&& next.1 matches StartupAction::WriteStore { records }
                    &&& persisted_views(records@) == projection(cache@, cache.codes())
                },
                (
                    Startup::FetchingInvites { persisted },
                    StartupEvent::InvitesFetched { live: None },
                ) => {
                    &&& next.0 == (Startup::Failed { error: StartupError::PlatformUnreachable })
                    &&& next.1 == (StartupAction::Abort {
                        error: StartupError::PlatformUnreachable,
                    })
                },
                _ => {
                    &&& next.0 == self
                    &&& next.1 is Ignore
                },
            },
    {
        match (self, event) {
            (Startup::LoadingStore, StartupEvent::StoreLoaded { outcome }) => match outcome {
                Ok(records) => (
                    Startup::FetchingInvites { persisted: records },
                    StartupAction::FetchInvites { create_store: false },
                ),
                Err(StoreError::NotFound) => (Startup::AwaitingAnswer, StartupAction::AskOperator),
                Err(StoreError::Malformed) => (
                    Startup::Failed { error: StartupError::StoreMalformed },
                    StartupAction::Abort { error: StartupError::StoreMalformed },
                ),
            },
            (Startup::AwaitingAnswer, StartupEvent::OperatorAnswered { answer }) => match answer {
                Answer::Yes => (
                    Startup::FetchingInvites { persisted: Vec::new() },
                    StartupAction::FetchInvites { create_store: true },
                ),
                Answer::No => (
                    Startup::FetchingInvites { persisted: Vec::new() },
                    StartupAction::FetchInvites { create_store: false },
                ),
                Answer::Unclear => (Startup::AwaitingAnswer, StartupAction::AskOperator),
            },
            (
                Startup::FetchingInvites { persisted },
                StartupEvent::InvitesFetched { live: Some(live) },
            ) => {
                let cache = reconcile(&persisted, &live);
                let records = cache.to_persisted();
                (Startup::Ready { cache }, StartupAction::WriteStore { records })
            },
            (Startup::FetchingInvites { .. }, StartupEvent::InvitesFetched { live: None }) => (
                Startup::Failed { error: StartupError::PlatformUnreachable },
                StartupAction::Abort { error: StartupError::PlatformUnreachable },
            ),
            (state, _) => (state, StartupAction::Ignore),
        }
    }

    /// The cache, once the startup is through.
    pub fn into_cache(self) -> (cache: Option<InviteCache>)
        ensures
            match self {
                Startup::Ready { cache: ready } => cache == Some(ready),
                _ => cache is None,
            },
    {
        match self {
            Startup::Ready { cache } => Some(cache),
            _ => None,
        }
    }
}

} // verus!
