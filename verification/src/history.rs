//! Sequences of cache operations that each name the code they work on, and
//! what such sequences do to one code.
//!
//! Writers take turns at the cache, in an order that nobody controls. The
//! law of this module says why that order does not matter across codes: what
//! a code ends with is decided by the operations on that code alone, taken
//! in their own order.

use vstd::prelude::*;
use crate::cache::observed;
use crate::editor::{with_linked, with_unlinked};
use crate::record::{Entry, RoleId};

verus! {

/// One operation on the entry of one code.
pub enum Operation {
    /// The platform announced the invite.
    Created { code: Seq<char> },
    /// The platform announced that the invite is gone.
    Deleted { code: Seq<char> },
    /// An administrator linked roles to the invite.
    Linked { code: Seq<char>, roles: Seq<RoleId> },
    /// An administrator unlinked roles from the invite.
    Unlinked { code: Seq<char>, roles: Seq<RoleId> },
}

impl Operation {
    /// The code that the operation works on.
    pub open spec fn target(self) -> Seq<char> {
        match self {
            Operation::Created { code } => code,
            Operation::Deleted { code } => code,
            Operation::Linked { code, .. } => code,
            Operation::Unlinked { code, .. } => code,
        }
    }
}

/// The cache after one operation.
pub open spec fn applied(
    cache: Map<Seq<char>, Entry>,
    operation: Operation,
) -> Map<Seq<char>, Entry> {
    match operation {
        Operation::Created { code } => observed(cache, code, 0),
        Operation::Deleted { code } => cache.remove(code),
        Operation::Linked { code, roles } => with_linked(cache, code, roles),
        Operation::Unlinked { code, roles } => with_unlinked(cache, code, roles),
    }
}

/// The cache after a sequence of operations, the first of them first.
pub open spec fn applied_all(
    cache: Map<Seq<char>, Entry>,
    operations: Seq<Operation>,
) -> Map<Seq<char>, Entry>
    decreases operations.len(),
{
    if operations.len() == 0 {
        cache
    } else {
        applied(applied_all(cache, operations.drop_last()), operations.last())
    }
}

/// Whether an operation works on `code`, as a function of the operation.
pub open spec fn works_on(code: Seq<char>) -> spec_fn(Operation) -> bool {
    |operation: Operation| operation.target() == code
}

/// The operations of a sequence that work on `code`, in their order.
pub open spec fn operations_on(operations: Seq<Operation>, code: Seq<char>) -> Seq<Operation> {
    operations.filter(works_on(code))
}

/// The entry of a code: whether the cache holds it, and with what.
pub open spec fn entry_of(cache: Map<Seq<char>, Entry>, code: Seq<char>) -> Option<Entry> {
    if cache.contains_key(code) {
        Some(cache[code])
    } else {
        None
    }
}

/// An operation decides the entry of its own code from that entry alone, and
/// leaves every other entry as it is.
pub proof fn lemma_operation_is_local(
    cache: Map<Seq<char>, Entry>,
    other: Map<Seq<char>, Entry>,
    operation: Operation,
    code: Seq<char>,
)
    ensures
        operation.target() != code ==> entry_of(applied(cache, operation), code) == entry_of(
            cache,
            code,
        ),
        entry_of(cache, code) == entry_of(other, code) ==> entry_of(applied(cache, operation), code)
            == entry_of(applied(other, operation), code),
{
}

/// What a code ends with after any sequence of operations is what it ends
/// with after the operations on that code alone. Operations on other codes,
/// however they are interleaved, do not show in its entry.
pub proof fn lemma_entry_follows_own_operations(
    cache: Map<Seq<char>, Entry>,
    operations: Seq<Operation>,
    code: Seq<char>,
)
    ensures
        entry_of(applied_all(cache, operations), code) == entry_of(
            applied_all(cache, operations_on(operations, code)),
            code,
        ),
    decreases operations.len(),
{
    if operations.len() == 0 {
        reveal(Seq::filter);
    } else {
        let earlier = operations.drop_last();
        let last = operations.last();
        lemma_entry_follows_own_operations(cache, earlier, code);
        earlier.lemma_filter_push(last, works_on(code));
        assert(earlier.push(last) =~= operations);
        let before = applied_all(cache, earlier);
        let own_before = applied_all(cache, operations_on(earlier, code));
        lemma_operation_is_local(before, own_before, last, code);
        if last.target() == code {
            assert(operations_on(earlier, code).push(last).drop_last() =~= operations_on(
                earlier,
                code,
            ));
        }
    }
}

/// Two operations on different codes may come in either order.
pub proof fn lemma_operations_on_two_codes_commute(
    cache: Map<Seq<char>, Entry>,
    first: Operation,
    second: Operation,
)
    requires
        first.target() != second.target(),
    ensures
        applied(applied(cache, first), second) == applied(applied(cache, second), first),
{
}

} // verus!
