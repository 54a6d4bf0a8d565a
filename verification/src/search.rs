//! First and last places of a key in a list, as the contracts of the library
//! speak of them.

use vstd::prelude::*;

verus! {

/// `at` is the first place of `key` in `keys`.
pub open spec fn is_first_at<A>(keys: Seq<A>, key: A, at: int) -> bool {
    &&& 0 <= at < keys.len()
    &&& keys[at] == key
    &&& forall|earlier: int| 0 <= earlier < at ==> keys[earlier] != key
}

/// The first place of `key` in `keys`. Meaningful where `keys` contains `key`.
pub open spec fn first_at<A>(keys: Seq<A>, key: A) -> int {
    choose|at: int| is_first_at(keys, key, at)
}

/// `at` is the last place of `key` in `keys`.
pub open spec fn is_last_at<A>(keys: Seq<A>, key: A, at: int) -> bool {
    &&& 0 <= at < keys.len()
    &&& keys[at] == key
    &&& forall|later: int| at < later < keys.len() ==> keys[later] != key
}

/// The last place of `key` in `keys`. Meaningful where `keys` contains `key`.
pub open spec fn last_at<A>(keys: Seq<A>, key: A) -> int {
    choose|at: int| is_last_at(keys, key, at)
}

/// A key has at most one first place.
pub proof fn lemma_first_at_is<A>(keys: Seq<A>, key: A, at: int)
    requires
        is_first_at(keys, key, at),
    ensures
        first_at(keys, key) == at,
        keys.contains(key),
{
}

/// A key has at most one last place.
pub proof fn lemma_last_at_is<A>(keys: Seq<A>, key: A, at: int)
    requires
        is_last_at(keys, key, at),
    ensures
        last_at(keys, key) == at,
        keys.contains(key),
{
}

/// A key that occurs has a first place.
pub proof fn lemma_first_at_exists<A>(keys: Seq<A>, key: A)
    requires
        keys.contains(key),
    ensures
        is_first_at(keys, key, first_at(keys, key)),
    decreases keys.len(),
{
    let front = keys.drop_last();
    let end = keys.len() - 1;
    if front.contains(key) {
        lemma_first_at_exists(front, key);
        let at = first_at(front, key);
        assert forall|earlier: int| 0 <= earlier < at implies keys[earlier] != key by {
            assert(keys[earlier] == front[earlier]);
        }
        assert(is_first_at(keys, key, at));
    } else {
        assert forall|earlier: int| 0 <= earlier < end implies keys[earlier] != key by {
            assert(front[earlier] == keys[earlier]);
        }
        assert(is_first_at(keys, key, end));
    }
}

/// A key that occurs has a last place.
pub proof fn lemma_last_at_exists<A>(keys: Seq<A>, key: A)
    requires
        keys.contains(key),
    ensures
        is_last_at(keys, key, last_at(keys, key)),
    decreases keys.len(),
{
    let end = keys.len() - 1;
    if keys[end] == key {
        assert(is_last_at(keys, key, end));
    } else {
        let front = keys.drop_last();
        let found = choose|i: int| 0 <= i < keys.len() && keys[i] == key;
        assert(front[found] == key);
        lemma_last_at_exists(front, key);
        let at = last_at(front, key);
        assert forall|later: int| at < later < keys.len() implies keys[later] != key by {
            if later < end {
                assert(keys[later] == front[later]);
            }
        }
        assert(is_last_at(keys, key, at));
    }
}

/// The first place of a key stays where it is when the list grows at its end;
/// a key that was not there has its first place at the new end.
pub proof fn lemma_first_at_push<A>(keys: Seq<A>, key: A, extra: A)
    ensures
        keys.contains(key) ==> first_at(keys.push(extra), key) == first_at(keys, key),
        !keys.contains(key) && extra == key ==> first_at(keys.push(extra), key) == keys.len(),
        keys.push(extra).contains(key) <==> keys.contains(key) || extra == key,
{
    let grown = keys.push(extra);
    if keys.contains(key) {
        lemma_first_at_exists(keys, key);
        let at = first_at(keys, key);
        lemma_first_at_is(grown, key, at);
    } else if extra == key {
        lemma_first_at_is(grown, key, keys.len() as int);
    }
}

/// The last place of a key moves to the new end when the key is appended,
/// and stays where it is when another key is.
pub proof fn lemma_last_at_push<A>(keys: Seq<A>, key: A, extra: A)
    ensures
        extra == key ==> last_at(keys.push(extra), key) == keys.len(),
        keys.contains(key) && extra != key ==> last_at(keys.push(extra), key) == last_at(
            keys,
            key,
        ),
        keys.push(extra).contains(key) <==> keys.contains(key) || extra == key,
{
    let grown = keys.push(extra);
    lemma_first_at_push(keys, key, extra);
    if extra == key {
        lemma_last_at_is(grown, key, keys.len() as int);
    } else if keys.contains(key) {
        lemma_last_at_exists(keys, key);
        let at = last_at(keys, key);
        lemma_last_at_is(grown, key, at);
    }
}

} // verus!
